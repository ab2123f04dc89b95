//! How the service and the render of a frame of audio take their course.
use vstd::prelude::*;

use crate::audio_cycle;
use crate::audio_cycle::{RenderEvent, RenderModel, ServiceEvent, ServiceModel};
use crate::audio_limits::{NativeAudioCharge, NativeAudioLimits, NativeAudioTelemetry, NativeMasterError};
use crate::audio_master;
use crate::audio_master::{LaneModel, NativeAudioDecodeResult, ValidatedCompletedAudioPage};
use crate::audio_mix::NativeStingerAudioRequest;
use crate::audio_playback;
use crate::audio_playback::{PlaybackModel, StingerRender, StingerService};
use crate::audio_project;
use crate::audio_render;
use crate::audio_render::{AudioFramePlan, SourceRender};
use crate::audio_service;
use crate::audio_service::RenderOutcome;
use crate::audio_source::{NativeAudioSource, Synchronizer};
use crate::lane_laws;
use crate::model::{FrameResult, InputId, OutsideFailure};
use crate::ordered;

verus! {

/// A service begins with the samples of the next frame, and changes nothing yet. A lane that has
/// failed is not serviced.
pub proof fn services_begin_with_the_next_frame(lane: LaneModel)
    ensures
        ({
            let (after, stage) = audio_cycle::service_begun(lane);
            &&& lane.failed ==> after == lane && stage == Err::<ServiceModel, NativeMasterError>(
                NativeMasterError::Failed,
            )
            &&& !lane.failed ==> match audio_master::next_span(lane) {
                Ok((start, end)) => after == lane && stage == Ok::<ServiceModel, NativeMasterError>(
                    ServiceModel::Answers { start_sample: start, end_sample: end },
                ),
                Err(error) => after.failed && stage == Err::<ServiceModel, NativeMasterError>(
                    error,
                ),
            }
        }),
{
}

/// The samples that a stage of a service is about, if it is not over.
pub open spec fn span_of(stage: ServiceModel) -> Option<(u64, u64)> {
    match stage {
        ServiceModel::Answers { start_sample, end_sample } => Some((start_sample, end_sample)),
        ServiceModel::Pages { start_sample, end_sample, .. } => Some((start_sample, end_sample)),
        ServiceModel::Intervals { start_sample, end_sample } => Some((start_sample, end_sample)),
        ServiceModel::Silence { start_sample, end_sample, .. } => Some((start_sample, end_sample)),
        ServiceModel::Paddings { start_sample, end_sample, .. } => Some(
            (start_sample, end_sample),
        ),
        ServiceModel::Over { .. } => None,
    }
}

/// Whether a stage of a service comes right after another.
pub open spec fn comes_after(stage: ServiceModel, before: ServiceModel) -> bool {
    match before {
        ServiceModel::Answers { .. } => stage is Pages,
        ServiceModel::Pages { .. } => stage is Intervals,
        ServiceModel::Intervals { .. } => stage is Silence || stage is Over,
        ServiceModel::Silence { .. } => stage is Paddings,
        ServiceModel::Paddings { .. } => stage is Over,
        ServiceModel::Over { .. } => false,
    }
}

/// A service takes its steps in their order and stays with the samples of its frame. A step that
/// fails fails the lane.
pub proof fn services_take_their_steps(
    lane: LaneModel,
    stage: ServiceModel,
    event: ServiceEvent,
    max_block_samples: usize,
)
    requires
        audio_cycle::answers_stage(lane, stage, event),
    ensures
        ({
            let (after, next) = audio_cycle::service_step(lane, stage, event, max_block_samples);
            &&& next matches Ok(next) ==> comes_after(next, stage) && (!(next is Over) ==> span_of(
                next,
            ) == span_of(stage))
            &&& next is Err ==> after.failed
            &&& (next matches Ok(ServiceModel::Over { covered: Err(_), .. })) ==> after.failed
        }),
{
}

/// Answers are looked at together: each that is still to be used gives its page, and none is
/// pushed yet.
pub proof fn answers_become_pages(
    lane: LaneModel,
    stage: ServiceModel,
    event: ServiceEvent,
    answers: Seq<NativeAudioDecodeResult>,
    max_block_samples: usize,
    pages: Seq<ValidatedCompletedAudioPage>,
)
    requires
        lane.wf(),
        stage is Answers,
        event matches ServiceEvent::Answered(Ok(given)) && given@ == answers,
        audio_cycle::service_step(lane, stage, event, max_block_samples).1 matches Ok(
            ServiceModel::Pages { pages: found, .. },
        ) && found == pages,
    ensures
        pages.len() == lane_laws::fresh_answers(lane, answers).len(),
        forall|k: int|
            0 <= k < pages.len() ==> lane_laws::is_page_of(
                #[trigger] pages[k],
                lane_laws::fresh_answers(lane, answers)[k],
            ),
{
    let (retained, found) = audio_master::looked_at(
        lane,
        audio_master::held_by(lane.sources),
        Seq::empty(),
        answers,
    ).1->Ok_0;
    lane_laws::every_fresh_answer_gives_its_page(lane, answers, retained, found);
}

/// Whether no page from `from` up to `to` is of an input.
pub open spec fn is_not_paged(
    pages: Seq<ValidatedCompletedAudioPage>,
    from: int,
    to: int,
    input: InputId,
) -> bool {
    forall|k: int| from <= k < to ==> (#[trigger] pages[k]).input != input
}

proof fn lemma_pushing_keeps(
    lane: LaneModel,
    pages: Seq<ValidatedCompletedAudioPage>,
    pushed: Seq<Result<NativeAudioCharge, OutsideFailure>>,
    input: InputId,
)
    requires
        lane.wf(),
        is_not_paged(pages, 0, pages.len() as int, input),
    ensures
        audio_cycle::pages_pushed(lane, pages, pushed).0.source(input) == lane.source(input),
    decreases pages.len(),
{
    if pages.len() > 0 {
        let last = pages.len() - 1;
        assert(pages[last].input != input);
        lane_laws::pages_move_their_source(lane, pages.last(), pushed[last]);
        let (after, outcome) = audio_master::with_committed(lane, pages.last(), pushed[last]);
        lemma_committed_wf(lane, pages.last(), pushed[last]);
        assert(after.source(input) == lane.source(input));
        if outcome is Ok {
            assert(is_not_paged(
                pages.drop_last(),
                0,
                pages.drop_last().len() as int,
                input,
            )) by {
                assert forall|k: int| 0 <= k < pages.drop_last().len() implies (
                #[trigger] pages.drop_last()[k]).input != input by {
                    assert(pages[k].input != input);
                }
            }
            lemma_pushing_keeps(after, pages.drop_last(), pushed, input);
        }
    }
}

proof fn lemma_committed_wf(
    lane: LaneModel,
    page: ValidatedCompletedAudioPage,
    pushed: Result<NativeAudioCharge, OutsideFailure>,
)
    requires
        lane.wf(),
    ensures
        audio_master::with_committed(lane, page, pushed).0.wf(),
{
    if let Some(source) = lane.source(page.input) {
        ordered::lemma_entry_pairs(lane.sources, page.input);
        assert(lane.sources.contains((page.input, source)));
        let i = choose|i: int|
            0 <= i < lane.sources.len() && lane.sources[i] == (page.input, source);
        assert(lane.sources[i].1.wf());
        if let Ok(after) = crate::audio_source::with_pushed_page(source, page.page, pushed) {
            audio_master::lemma_with_source(
                lane,
                page.input,
                NativeAudioSource {
                    in_flight: None,
                    end_of_stream: page.end_of_stream,
                    ..after
                },
            );
        }
    }
}

/// Every page that is pushed moves the source that it is of, and no other: the source stands
/// behind the page then, waits for nothing, and has ended where the page says so.
pub proof fn every_page_moves_its_source(
    lane: LaneModel,
    pages: Seq<ValidatedCompletedAudioPage>,
    pushed: Seq<Result<NativeAudioCharge, OutsideFailure>>,
    place: int,
)
    requires
        lane.wf(),
        pushed.len() >= pages.len(),
        0 <= place < pages.len(),
        is_not_paged(pages, 0, place, pages[place].input),
        is_not_paged(pages, place + 1, pages.len() as int, pages[place].input),
    ensures
        ({
            let (after, outcome) = audio_cycle::pages_pushed(lane, pages, pushed);
            let page = pages[place];
            outcome is Ok ==> (lane.source(page.input) matches Some(source)
                && source.synchronizer matches Some(synchronizer)
                && pushed[place] matches Ok(buffered) && after.source(page.input) == Some(
                NativeAudioSource {
                    synchronizer: Some(Synchronizer { buffered, ..synchronizer }),
                    next_sample: page.page.next_sample,
                    next_sequence: page.page.next_sequence,
                    in_flight: None,
                    end_of_stream: page.end_of_stream,
                    ..source
                },
            ))
        }),
    decreases pages.len(),
{
    let last = pages.len() - 1;
    let input = pages[place].input;
    let rest = pages.drop_last();
    lane_laws::pages_move_their_source(lane, pages.last(), pushed[last]);
    lemma_committed_wf(lane, pages.last(), pushed[last]);
    let (after, outcome) = audio_master::with_committed(lane, pages.last(), pushed[last]);
    assert(pages[last] == pages.last());
    if outcome is Ok {
        if place < last {
            assert(after.source(input) == lane.source(input));
            assert forall|k: int| 0 <= k < place implies (#[trigger] rest[k]).input != input by {
                assert(pages[k].input != input);
            }
            assert forall|k: int| place + 1 <= k < rest.len() implies (#[trigger] rest[k]).input
                != input by {
                assert(pages[k].input != input);
            }
            every_page_moves_its_source(after, rest, pushed, place);
        } else {
            assert(is_not_paged(rest, 0, rest.len() as int, input)) by {
                assert forall|k: int| 0 <= k < rest.len() implies (#[trigger] rest[k]).input
                    != input by {
                    assert(pages[k].input != input);
                }
            }
            lemma_pushing_keeps(after, rest, pushed, input);
        }
    }
}

/// Once the synchronizers have said what they lack, silence is prepared where a source that has
/// ended needs it; where none does, the service is over, and the frame is covered exactly where
/// no source is waited for.
pub proof fn silence_is_prepared_where_it_is_needed(
    lane: LaneModel,
    start: u64,
    end: u64,
    event: ServiceEvent,
    outcomes: Seq<RenderOutcome>,
    max_block_samples: usize,
    slot: int,
    required_sample: u64,
)
    requires
        lane.wf(),
        event matches ServiceEvent::Planned(said) && said@ == outcomes,
        outcomes.len() == lane.sources.len(),
        0 <= slot < lane.sources.len(),
        audio_cycle::service_step(
            lane,
            ServiceModel::Intervals { start_sample: start, end_sample: end },
            event,
            max_block_samples,
        ).1 is Ok,
    ensures
        ({
            let (after, next) = audio_cycle::service_step(
                lane,
                ServiceModel::Intervals { start_sample: start, end_sample: end },
                event,
                max_block_samples,
            );
            let (input, source) = lane.sources[slot];
            &&& lane_laws::is_padded_to(source, end, outcomes[slot], required_sample) ==> (
            next matches Ok(ServiceModel::Silence { uncovered, wanted, .. })
                && wanted.contains((input, required_sample)) && after == lane)
            &&& next matches Ok(ServiceModel::Silence { uncovered, wanted, .. }) ==> (
            uncovered.contains(input) <==> lane_laws::is_waited_for(source, end, outcomes[slot]))
                && (wanted.contains((input, required_sample)) <==> lane_laws::is_padded_to(
                source,
                end,
                outcomes[slot],
                required_sample,
            ))
            &&& next matches Ok(ServiceModel::Over { covered: Ok(covered), .. }) ==> (covered
                ==> !lane_laws::is_waited_for(source, end, outcomes[slot]))
        }),
{
    let (uncovered, wanted) = audio_service::needs(
        lane,
        start,
        end,
        outcomes,
        0,
        Seq::empty(),
        Seq::empty(),
    )->Ok_0;
    lane_laws::frames_wait_for_what_is_missing(
        lane,
        start,
        end,
        outcomes,
        slot,
        required_sample,
        uncovered,
        wanted,
    );
}

/// Whether a stage of a render comes right after another.
pub open spec fn renders_after(stage: RenderModel, before: RenderModel) -> bool {
    match before {
        RenderModel::Parts { plan } => stage matches RenderModel::Mix { plan: kept, .. } && kept
            == plan,
        RenderModel::Mix { plan, parts } => stage == (RenderModel::Check { plan, parts }),
        RenderModel::Check { plan, parts } => stage == (RenderModel::Play { plan, parts }),
        RenderModel::Play { plan, .. } => stage == (RenderModel::Collect { plan }),
        RenderModel::Collect { .. } => stage is Over,
        RenderModel::Over => false,
    }
}

/// A render takes its steps in their order, with the same plan and the same parts. Until they
/// are played, no source changes, and a step that fails fails the lane.
pub proof fn renders_take_their_steps(lane: LaneModel, stage: RenderModel, event: RenderEvent)
    requires
        audio_cycle::answers_render(lane, stage, event),
    ensures
        ({
            let (after, next) = audio_cycle::render_step(lane, stage, event);
            &&& next matches Ok(next) ==> renders_after(next, stage)
            &&& next is Err ==> after.failed
            &&& !(stage is Play) ==> after.sources == lane.sources
            &&& next is Ok && (stage is Parts || stage is Mix || stage is Check) ==> after == lane
            &&& (event matches RenderEvent::Mixed(Err(error)) ==> next == Err::<
                RenderModel,
                NativeMasterError,
            >(error))
            &&& (event matches RenderEvent::Collected(Err(error)) ==> next == Err::<
                RenderModel,
                NativeMasterError,
            >(error))
            &&& (event matches RenderEvent::Mixed(Ok(_)) ==> next is Ok)
        }),
{
}

proof fn lemma_parts(
    lane: LaneModel,
    plan: AudioFramePlan,
    outcomes: Seq<Result<(), OutsideFailure>>,
    i: int,
    parts: Seq<(InputId, SourceRender)>,
    slot: int,
    part: SourceRender,
)
    requires
        lane.wf(),
        0 <= i,
        0 <= slot < lane.sources.len(),
        outcomes.len() == lane.sources.len(),
    ensures
        audio_cycle::parts_from(lane, plan, outcomes, i, parts) matches Ok(found) ==> {
            let (input, source) = lane.sources[slot];
            let filled = audio_render::part_of(lane, input, source, plan);
            &&& found.contains((input, part)) <==> (parts.contains((input, part)) || i <= slot
                && filled == Ok::<Option<SourceRender>, NativeMasterError>(Some(part)))
            &&& i <= slot ==> filled is Ok
            &&& i <= slot && filled->Ok_0 is Some ==> outcomes[slot] is Ok
        },
    decreases lane.sources.len() - i,
{
    if i < lane.sources.len() {
        let (input, source) = lane.sources[i];
        let wanted = lane.sources[slot].0;
        assert(lane.inputs()[i] == input);
        assert(lane.inputs()[slot] == wanted);
        assert(i != slot ==> input != wanted);
        match audio_render::part_of(lane, input, source, plan) {
            Err(_) => {},
            Ok(None) => {
                lemma_parts(lane, plan, outcomes, i + 1, parts, slot, part);
            },
            Ok(Some(filled)) => {
                let next = parts.push((input, filled));
                ordered::lemma_contains_drop_last(next, (wanted, part));
                assert(next.drop_last() =~= parts);
                lemma_parts(lane, plan, outcomes, i + 1, next, slot, part);
            },
        }
    }
}

/// The parts that are mixed are exactly those that the sources fill, and every synchronizer has
/// rendered its own.
pub proof fn every_part_that_is_filled_is_mixed(
    lane: LaneModel,
    plan: AudioFramePlan,
    event: RenderEvent,
    outcomes: Seq<Result<(), OutsideFailure>>,
    slot: int,
    part: SourceRender,
)
    requires
        lane.wf(),
        event matches RenderEvent::Rendered(said) && said@ == outcomes,
        0 <= slot < lane.sources.len(),
        outcomes.len() == lane.sources.len(),
    ensures
        audio_cycle::render_step(lane, RenderModel::Parts { plan }, event).1 matches Ok(
            RenderModel::Mix { parts, .. },
        ) ==> {
            let (input, source) = lane.sources[slot];
            let filled = audio_render::part_of(lane, input, source, plan);
            &&& parts.contains((input, part)) <==> filled == Ok::<
                Option<SourceRender>,
                NativeMasterError,
            >(Some(part))
            &&& filled matches Ok(Some(_)) ==> outcomes[slot] is Ok
        },
{
    lemma_parts(lane, plan, outcomes, 0, Seq::empty(), slot, part);
}

proof fn lemma_commits(
    lane: LaneModel,
    commits: Seq<(InputId, Result<(), OutsideFailure>)>,
    i: int,
)
    requires
        0 <= i,
    ensures
        audio_render::render_commits(lane, commits, i) is Ok <==> forall|k: int|
            #![trigger commits[k]]
            i <= k < commits.len() ==> commits[k].1 is Ok && (lane.source(
                commits[k].0,
            ) matches Some(source) && source.synchronizer is Some),
    decreases commits.len() - i,
{
    if i < commits.len() {
        lemma_commits(lane, commits, i + 1);
        if audio_render::render_commits(lane, commits, i) is Ok {
            assert forall|k: int| #![trigger commits[k]] i <= k < commits.len() implies commits[k].1
                is Ok && (lane.source(commits[k].0) matches Some(source) && source.synchronizer
                is Some) by {
                if k > i {
                    assert(commits[k] == commits[k]);
                }
            }
        }
    }
}

/// Parts are played exactly where every synchronizer lets its own be played: where one does not,
/// none is.
pub proof fn all_parts_are_played_or_none(
    lane: LaneModel,
    plan: AudioFramePlan,
    parts: Seq<(InputId, SourceRender)>,
    event: RenderEvent,
    checked: Seq<Result<(), OutsideFailure>>,
)
    requires
        event matches RenderEvent::Checked(said) && said@ == checked,
        checked.len() == parts.len(),
    ensures
        audio_cycle::render_step(lane, RenderModel::Check { plan, parts }, event).1 is Ok
            <==> forall|k: int|
            #![trigger parts[k]]
            0 <= k < parts.len() ==> checked[k] is Ok && (lane.source(
                parts[k].0,
            ) matches Some(source) && source.synchronizer is Some),
{
    let commits = audio_cycle::commits_of(parts, checked);
    lemma_commits(lane, commits, 0);
    let stepped = audio_cycle::render_step(lane, RenderModel::Check { plan, parts }, event).1;
    if stepped is Ok {
        assert forall|k: int| #![trigger parts[k]] 0 <= k < parts.len() implies checked[k] is Ok
            && (lane.source(parts[k].0) matches Some(source) && source.synchronizer is Some) by {
            assert(commits[k] == (parts[k].0, checked[k]));
        }
    }
    if forall|k: int|
        #![trigger parts[k]]
        0 <= k < parts.len() ==> checked[k] is Ok && (lane.source(
            parts[k].0,
        ) matches Some(source) && source.synchronizer is Some) {
        assert forall|k: int| #![trigger commits[k]] 0 <= k < commits.len() implies commits[k].1
            is Ok && (lane.source(commits[k].0) matches Some(source) && source.synchronizer
            is Some) by {
            assert(commits[k] == (parts[k].0, checked[k]));
            assert(parts[k] == parts[k]);
        }
    }
}

/// What silence is prepared for is what was wanted, each in its place, and what the frame waits
/// for is still known; the service is over once it has been pushed.
pub proof fn prepared_silence_is_what_was_wanted(
    lane: LaneModel,
    start: u64,
    end: u64,
    uncovered: Seq<InputId>,
    wanted: Seq<(InputId, u64)>,
    event: ServiceEvent,
    admitted: Seq<Result<(), OutsideFailure>>,
    max_block_samples: usize,
)
    requires
        event matches ServiceEvent::Admitted(said) && said@ == admitted,
        admitted.len() == wanted.len(),
    ensures
        ({
            let (after, next) = audio_cycle::service_step(
                lane,
                ServiceModel::Silence { start_sample: start, end_sample: end, uncovered, wanted },
                event,
                max_block_samples,
            );
            next matches Ok(
                ServiceModel::Paddings { uncovered: kept, retained, paddings, .. },
            ) ==> {
                &&& after == lane
                &&& kept == uncovered
                &&& paddings.len() == wanted.len()
                &&& forall|k: int|
                    0 <= k < wanted.len() ==> lane_laws::is_provided_for(
                        lane,
                        wanted[k],
                        admitted[k],
                        #[trigger] paddings[k],
                    )
            }
        }),
{
    if let Ok((retained, paddings)) = audio_service::staged(
        lane,
        wanted,
        admitted,
        max_block_samples,
        0,
        audio_master::held_by(lane.sources),
        lane.limits.max_retained_blocks as int,
        Seq::empty(),
    ) {
        lane_laws::every_ended_source_gets_its_silence(
            lane,
            wanted,
            admitted,
            max_block_samples,
            retained,
            paddings,
        );
    }
}

/// Once a service is over its frame is covered exactly where it waits for no source, and the
/// decoders of those that it waits for have been asked.
pub proof fn services_end_with_what_is_waited_for(
    lane: LaneModel,
    start: u64,
    end: u64,
    uncovered: Seq<InputId>,
    covered: bool,
)
    requires
        lane.wf(),
        audio_cycle::service_over(lane, start, end, uncovered).1 matches Ok(
            ServiceModel::Over { covered: Ok(told), .. },
        ) && told == covered,
    ensures
        covered <==> uncovered.len() == 0,
        ({
            let after = audio_cycle::service_over(lane, start, end, uncovered).0;
            &&& after.ready_frame is Some <==> covered
            &&& after.ready_frame matches Some(ready) ==> ready.frame == lane.expected_next_frame
                && ready.start_sample == start && ready.end_sample == end
            &&& after.failed == lane.failed
        }),
{
    lane_laws::frames_are_ready_once_covered(lane, start, end, uncovered, covered);
    lemma_asking_fails_nothing(lane, start, end, uncovered);
}

proof fn lemma_asking_fails_nothing(lane: LaneModel, start: u64, end: u64, uncovered: Seq<InputId>)
    ensures
        ({
            let after = audio_service::serviced(lane, start, end, uncovered).0;
            &&& after.failed == lane.failed
            &&& is_counted_together(
                lane.audio_telemetry.source_stalls as int,
                uncovered.len() as int,
                after.audio_telemetry.source_stalls as int,
                u64::MAX as int,
            )
        }),
{
    let counted = lane.with_telemetry(
        NativeAudioTelemetry {
            source_stalls: crate::audio_limits::capped_u64(
                lane.audio_telemetry.source_stalls,
                uncovered.len() as int,
            ),
            ..lane.audio_telemetry
        },
    );
    if let Some(reserved) = audio_service::reserved_by(counted.sources) {
        lemma_refilling_fails_nothing(
            counted,
            end,
            audio_master::held_by(counted.sources),
            reserved,
            uncovered,
            audio_service::refill_order(counted, uncovered),
            0,
            Seq::empty(),
        );
    }
}

proof fn lemma_refilling_fails_nothing(
    lane: LaneModel,
    requested_end: u64,
    retained: NativeAudioCharge,
    reserved: NativeAudioCharge,
    uncovered: Seq<InputId>,
    order: Seq<InputId>,
    i: int,
    requests: Seq<crate::audio_service::NativeAudioDecodeRequest>,
)
    ensures
        ({
            let after = audio_service::refilled(
                lane,
                requested_end,
                retained,
                reserved,
                uncovered,
                order,
                i,
                requests,
            ).0;
            &&& after.failed == lane.failed
            &&& after.audio_telemetry.source_stalls == lane.audio_telemetry.source_stalls
        }),
    decreases order.len() - i,
{
    if i < order.len() {
        let urgent = uncovered.contains(order[i]);
        match audio_service::refill_of(lane, order[i], requested_end, retained, reserved, urgent) {
            Err(_) => {},
            Ok(None) => {
                lemma_refilling_fails_nothing(
                    lane,
                    requested_end,
                    retained,
                    reserved,
                    uncovered,
                    order,
                    i + 1,
                    requests,
                );
            },
            Ok(Some(reservation)) => {
                lemma_refilling_fails_nothing(
                    audio_service::with_request(lane, order[i], reservation),
                    requested_end,
                    retained,
                    reserved.plus(reservation.charge)->Some_0,
                    uncovered,
                    order,
                    i + 1,
                    requests.push(audio_service::request_of(lane, order[i], reservation)),
                );
            },
        }
    }
}

/// Whether a clip is heard during a frame: it is not muted and its media have audio.
pub open spec fn is_heard(playback: PlaybackModel, request: NativeStingerAudioRequest) -> bool {
    !(request.policy is Muted) && !playback.silent_inputs.contains(request.trigger.media)
}

/// A clip that is heard is serviced with the frame of it that is shown: from its begin where a
/// showing begins, counted from the frame of the program that the showing began with.
pub proof fn clips_are_serviced_as_they_are_shown(
    playback: PlaybackModel,
    request: NativeStingerAudioRequest,
)
    requires
        playback.wf(),
        is_heard(playback, request),
    ensures
        ({
            let (after, begin) = audio_playback::begun(playback, Ok(Some(request)));
            let media = request.trigger.media;
            &&& begin matches Ok(begin) ==> {
                &&& begin matches StingerService::Clip { request: asked, restarted } && asked
                    == request && (restarted <==> (playback.active_trigger matches Some(active)
                    && active != request.trigger))
                &&& playback.has_clip(media)
                &&& after.lane(media).expected_next_frame == request.frame_index
                &&& playback.active_trigger != Some(request.trigger) ==> after.lane(
                    media,
                ).cadence_origin_frame == request.trigger.cadence_origin_frame
                &&& (playback.active_trigger matches Some(active) && active != request.trigger)
                    ==> request.frame_index == 0 && after.lane(media).ready_frame is None
                &&& after.active_trigger == Some(request.trigger)
                &&& after.silent_inputs == playback.silent_inputs
            }
            &&& !playback.has_clip(media) ==> begin is Err || playback.active_trigger == Some(
                request.trigger,
            )
        }),
{
    let media = request.trigger.media;
    ordered::lemma_lower_bound(playback.inputs(), media);
    ordered::lemma_contains_at_lower_bound(playback.inputs(), media);
    let (aimed, outcome) = audio_playback::aimed(playback, request.trigger);
    if playback.has_clip(media) {
        let slot = playback.slot(media);
        assert(playback.inputs()[slot] == playback.masters[slot].0);
        assert(aimed.inputs() =~= playback.inputs());
    }
}

/// A Stinger that is muted, or whose media have no audio, lacks nothing. Where there is no
/// Stinger nothing is ready either.
pub proof fn clips_that_are_not_heard_lack_nothing(
    playback: PlaybackModel,
    request: NativeStingerAudioRequest,
)
    requires
        !is_heard(playback, request),
    ensures
        ({
            let (after, begin) = audio_playback::begun(playback, Ok(Some(request)));
            &&& begin == Ok::<StingerService, NativeMasterError>(StingerService::Covered)
            &&& after.ready == Some(request)
            &&& after.active_trigger == Some(request.trigger)
            &&& after.masters == playback.masters
        }),
        ({
            let (after, begin) = audio_playback::begun(playback, Ok(None));
            &&& begin == Ok::<StingerService, NativeMasterError>(StingerService::Covered)
            &&& after.ready is None
            &&& after.active_trigger == playback.active_trigger
            &&& after.masters == playback.masters
        }),
{
}

/// What is heard of a Stinger is what was made ready: its clip, frame by frame and by itself,
/// silence where its media have no audio, and nothing where it is muted. What was not made ready
/// is not heard.
pub proof fn stingers_are_heard_as_they_were_made_ready(
    playback: PlaybackModel,
    request: NativeStingerAudioRequest,
    frame: FrameResult,
)
    ensures
        ({
            let (after, heard) = audio_playback::called(playback, Ok(Some(request)), frame);
            let media = request.trigger.media;
            &&& playback.ready != Some(request) ==> heard is Err && after == playback
            &&& playback.ready == Some(request) ==> after.ready is None
            &&& playback.ready == Some(request) && request.policy is Muted ==> heard == Ok::<
                StingerRender,
                NativeMasterError,
            >(StingerRender::Nothing)
            &&& playback.ready == Some(request) && !(request.policy is Muted)
                && playback.silent_inputs.contains(media) ==> heard == Ok::<
                StingerRender,
                NativeMasterError,
            >(StingerRender::Silence(request))
            &&& playback.ready == Some(request) && is_heard(playback, request) ==> (heard is Ok
                <==> playback.has_clip(media))
            &&& heard matches Ok(StingerRender::Clip { request: asked, frame: shown }) ==> {
                &&& is_heard(playback, request)
                &&& asked == request
                &&& shown.frame == request.frame_index
                &&& shown.deadline_ns == frame.deadline_ns
                &&& shown.program.primary == media
                &&& shown.program.secondary is None
                &&& shown.program.transition_kind is None
                &&& shown.fade_to_black.interval_start.numerator == 0
                &&& shown.fade_to_black.interval_end.numerator == 0
            }
        }),
        audio_playback::called(playback, Ok(None), frame).1 == Ok::<
            StingerRender,
            NativeMasterError,
        >(StingerRender::Nothing),
{
}

proof fn lemma_restarting(sources: Seq<(InputId, NativeAudioSource)>, i: int, slot: int)
    requires
        0 <= i,
        0 <= slot < sources.len(),
    ensures
        audio_render::restarted_sources(sources, i).1 is Ok ==> {
            let after = audio_render::restarted_sources(sources, i).0;
            &&& after.len() == sources.len()
            &&& slot < i ==> after[slot] == sources[slot]
            &&& slot >= i && sources[slot].1.synchronizer is None ==> after[slot] == sources[slot]
            &&& slot >= i ==> (sources[slot].1.synchronizer matches Some(synchronizer) ==> {
                let before = sources[slot].1;
                &&& before.decode_generation < u64::MAX
                &&& after[slot].0 == sources[slot].0
                &&& after[slot].1 == (NativeAudioSource {
                    synchronizer: Some(
                        Synchronizer {
                            buffered: NativeAudioCharge { blocks: 0, samples: 0, bytes: 0 },
                            ..synchronizer
                        },
                    ),
                    decode_generation: (before.decode_generation + 1) as u64,
                    restart_decode: true,
                    next_sample: before.restart_sample,
                    next_sequence: before.restart_sequence,
                    end_of_stream: false,
                    ..before
                })
            })
        },
    decreases sources.len() - i,
{
    if i < sources.len() {
        let (input, source) = sources[i];
        if source.synchronizer is None {
            lemma_restarting(sources, i + 1, slot);
        } else if source.decode_generation < u64::MAX {
            lemma_restarting(
                sources.update(i, (input, audio_render::restarted(source))),
                i + 1,
                slot,
            );
        }
    }
}

/// A clip that begins anew plays from where it began: its decoder has to begin anew, nothing is
/// held, and what else is known of its source stays. Sources that play nothing stay as they are.
pub proof fn clips_begin_anew(lane: LaneModel, cadence_origin_frame: u64, slot: int)
    requires
        0 <= slot < lane.sources.len(),
        audio_render::restarted_lane(lane, cadence_origin_frame).1 is Ok,
    ensures
        ({
            let after = audio_render::restarted_lane(lane, cadence_origin_frame).0;
            let before = lane.sources[slot].1;
            &&& after.expected_next_frame == 0
            &&& after.cadence_origin_frame == cadence_origin_frame
            &&& after.ready_frame is None
            &&& after.failed == lane.failed
            &&& after.audio_telemetry == lane.audio_telemetry
            &&& after.limits == lane.limits
            &&& after.sources.len() == lane.sources.len()
            &&& before.synchronizer is None ==> after.sources[slot] == lane.sources[slot]
            &&& before.synchronizer matches Some(synchronizer) ==> {
                &&& after.sources[slot].0 == lane.sources[slot].0
                &&& after.sources[slot].1 == (NativeAudioSource {
                    synchronizer: Some(
                        Synchronizer {
                            buffered: NativeAudioCharge { blocks: 0, samples: 0, bytes: 0 },
                            ..synchronizer
                        },
                    ),
                    decode_generation: (before.decode_generation + 1) as u64,
                    restart_decode: true,
                    next_sample: before.restart_sample,
                    next_sequence: before.restart_sequence,
                    end_of_stream: false,
                    ..before
                })
            }
        }),
{
    lemma_restarting(lane.sources, 0, slot);
}

/// Whether one of two parts is half of the whole, as far as it can be halved.
pub open spec fn are_halves(a: usize, b: usize, whole: usize) -> bool {
    a + b == whole && a <= b <= a + 1
}

/// Where clips are heard, the program and all clips share what may be held in halves; where none
/// is, the program has all of it. Each clip has an even share, as large as can be.
pub proof fn what_may_be_held_is_shared(limits: NativeAudioLimits, clips: usize)
    ensures
        ({
            let (program, all_clips) = audio_project::shared_limits(limits, true);
            &&& are_halves(
                program.max_retained_blocks,
                all_clips.max_retained_blocks,
                limits.max_retained_blocks,
            )
            &&& are_halves(
                program.max_retained_samples,
                all_clips.max_retained_samples,
                limits.max_retained_samples,
            )
            &&& are_halves(
                program.max_retained_bytes,
                all_clips.max_retained_bytes,
                limits.max_retained_bytes,
            )
            &&& program.max_blocks_per_source == limits.max_blocks_per_source
            &&& program.max_blocks_per_page == limits.max_blocks_per_page
            &&& program.max_samples_per_page == limits.max_samples_per_page
            &&& program.sink_blocks == limits.sink_blocks
        }),
        audio_project::shared_limits(limits, false).0 == limits,
        clips > 0 ==> {
            let clip = audio_project::clip_share(limits, clips);
            &&& crate::hearing_laws::is_even_share(
                clip.max_retained_blocks as int,
                clips as int,
                limits.max_retained_blocks as int,
                0,
            )
            &&& crate::hearing_laws::is_even_share(
                clip.max_retained_samples as int,
                clips as int,
                limits.max_retained_samples as int,
                0,
            )
            &&& crate::hearing_laws::is_even_share(
                clip.max_retained_bytes as int,
                clips as int,
                limits.max_retained_bytes as int,
                0,
            )
            &&& clip.sink_blocks == 1
            &&& clip.max_blocks_per_source == limits.max_blocks_per_source
            &&& clip.max_blocks_per_page == limits.max_blocks_per_page
            &&& clip.max_samples_per_page == limits.max_samples_per_page
        },
{
    if clips > 0 {
        lemma_share(limits.max_retained_blocks, clips);
        lemma_share(limits.max_retained_samples, clips);
        lemma_share(limits.max_retained_bytes, clips);
    }
}

proof fn lemma_share(whole: usize, clips: usize)
    requires
        clips > 0,
    ensures
        0 <= whole / clips <= whole,
        (whole / clips) * clips <= whole < (whole / clips + 1) * clips,
{
    let share = whole / clips;
    assert(share * clips <= whole < (share + 1) * clips && 0 <= share <= whole)
        by (nonlinear_arith)
        requires
            clips > 0,
            share == whole / clips,
    ;
}

/// Whether a count is the sum of two, or the largest count where the sum cannot be counted.
pub open spec fn is_counted_together(a: int, b: int, together: int, largest: int) -> bool {
    if a + b <= largest {
        together == a + b
    } else {
        together == largest
    }
}

/// The counts of two lanes are told together: each is the sum of both.
pub proof fn counts_are_told_together(a: NativeAudioTelemetry, b: NativeAudioTelemetry)
    ensures
        ({
            let c = a.merged(b);
            let most = usize::MAX as int;
            let largest = u64::MAX as int;
            &&& is_counted_together(
                a.reservation_requests as int,
                b.reservation_requests as int,
                c.reservation_requests as int,
                largest,
            )
            &&& is_counted_together(
                a.reserved_blocks as int,
                b.reserved_blocks as int,
                c.reserved_blocks as int,
                most,
            )
            &&& is_counted_together(
                a.reserved_samples as int,
                b.reserved_samples as int,
                c.reserved_samples as int,
                most,
            )
            &&& is_counted_together(
                a.reserved_bytes as int,
                b.reserved_bytes as int,
                c.reserved_bytes as int,
                most,
            )
            &&& is_counted_together(
                a.peak_reserved_blocks as int,
                b.peak_reserved_blocks as int,
                c.peak_reserved_blocks as int,
                most,
            )
            &&& is_counted_together(
                a.peak_reserved_samples as int,
                b.peak_reserved_samples as int,
                c.peak_reserved_samples as int,
                most,
            )
            &&& is_counted_together(
                a.peak_reserved_bytes as int,
                b.peak_reserved_bytes as int,
                c.peak_reserved_bytes as int,
                most,
            )
            &&& is_counted_together(
                a.source_stalls as int,
                b.source_stalls as int,
                c.source_stalls as int,
                largest,
            )
            &&& is_counted_together(
                a.positioned_blocks as int,
                b.positioned_blocks as int,
                c.positioned_blocks as int,
                largest,
            )
            &&& is_counted_together(
                a.positioned_samples as int,
                b.positioned_samples as int,
                c.positioned_samples as int,
                largest,
            )
            &&& is_counted_together(
                a.leading_silence_samples as int,
                b.leading_silence_samples as int,
                c.leading_silence_samples as int,
                largest,
            )
            &&& is_counted_together(
                a.eos_padding_blocks as int,
                b.eos_padding_blocks as int,
                c.eos_padding_blocks as int,
                largest,
            )
            &&& is_counted_together(
                a.eos_padding_samples as int,
                b.eos_padding_samples as int,
                c.eos_padding_samples as int,
                largest,
            )
            &&& is_counted_together(
                a.peak_retained_blocks as int,
                b.peak_retained_blocks as int,
                c.peak_retained_blocks as int,
                most,
            )
            &&& is_counted_together(
                a.peak_retained_samples as int,
                b.peak_retained_samples as int,
                c.peak_retained_samples as int,
                most,
            )
            &&& is_counted_together(
                a.peak_retained_bytes as int,
                b.peak_retained_bytes as int,
                c.peak_retained_bytes as int,
                most,
            )
        }),
{
}

/// Whether a peak has risen just so far that it covers a count.
pub open spec fn is_peak_over(before: usize, count: usize, after: usize) -> bool {
    after >= before && after >= count && (after == before || after == count)
}

/// A request is counted with what it asks for, and the peaks rise with it. What is held raises
/// its own peaks and no other count.
pub proof fn peaks_cover_what_is_counted(
    telemetry: NativeAudioTelemetry,
    charge: NativeAudioCharge,
)
    ensures
        ({
            let after = telemetry.with_reservation(charge);
            let most = usize::MAX as int;
            &&& is_counted_together(
                telemetry.reservation_requests as int,
                1,
                after.reservation_requests as int,
                u64::MAX as int,
            )
            &&& is_counted_together(
                telemetry.reserved_blocks as int,
                charge.blocks as int,
                after.reserved_blocks as int,
                most,
            )
            &&& is_counted_together(
                telemetry.reserved_samples as int,
                charge.samples as int,
                after.reserved_samples as int,
                most,
            )
            &&& is_counted_together(
                telemetry.reserved_bytes as int,
                charge.bytes as int,
                after.reserved_bytes as int,
                most,
            )
            &&& is_peak_over(
                telemetry.peak_reserved_blocks,
                after.reserved_blocks,
                after.peak_reserved_blocks,
            )
            &&& is_peak_over(
                telemetry.peak_reserved_samples,
                after.reserved_samples,
                after.peak_reserved_samples,
            )
            &&& is_peak_over(
                telemetry.peak_reserved_bytes,
                after.reserved_bytes,
                after.peak_reserved_bytes,
            )
        }),
        ({
            let after = telemetry.with_retained(charge);
            &&& is_peak_over(
                telemetry.peak_retained_blocks,
                charge.blocks,
                after.peak_retained_blocks,
            )
            &&& is_peak_over(
                telemetry.peak_retained_samples,
                charge.samples,
                after.peak_retained_samples,
            )
            &&& is_peak_over(telemetry.peak_retained_bytes, charge.bytes, after.peak_retained_bytes)
            &&& after.reserved() == telemetry.reserved()
            &&& after.reservation_requests == telemetry.reservation_requests
            &&& after.source_stalls == telemetry.source_stalls
        }),
{
}

/// Every source that a frame waits for is counted once as having stalled it.
pub proof fn stalls_are_counted(lane: LaneModel, start: u64, end: u64, uncovered: Seq<InputId>)
    ensures
        ({
            let after = audio_cycle::service_over(lane, start, end, uncovered).0;
            is_counted_together(
                lane.audio_telemetry.source_stalls as int,
                uncovered.len() as int,
                after.audio_telemetry.source_stalls as int,
                u64::MAX as int,
            )
        }),
{
    lemma_asking_fails_nothing(lane, start, end, uncovered);
}

/// The blocks and samples that a decoder has passed over are counted with its answer, and nothing
/// else is.
pub proof fn what_is_passed_over_is_counted(lane: LaneModel, answer: NativeAudioDecodeResult)
    ensures
        ({
            let after = audio_master::with_positioned(lane, answer);
            let (before, now) = (lane.audio_telemetry, after.audio_telemetry);
            &&& is_counted_together(
                before.positioned_blocks as int,
                answer.positioned_blocks as int,
                now.positioned_blocks as int,
                u64::MAX as int,
            )
            &&& is_counted_together(
                before.positioned_samples as int,
                answer.positioned_samples as int,
                now.positioned_samples as int,
                u64::MAX as int,
            )
            &&& now.reserved() == before.reserved()
            &&& now.source_stalls == before.source_stalls
            &&& after.sources == lane.sources
        }),
{
}

/// Silence that is put behind a source is counted, block by block and sample by sample.
pub proof fn silence_is_counted(telemetry: NativeAudioTelemetry, charge: NativeAudioCharge)
    ensures
        ({
            let after = audio_service::padded_telemetry(telemetry, charge);
            &&& is_counted_together(
                telemetry.eos_padding_blocks as int,
                charge.blocks as int,
                after.eos_padding_blocks as int,
                u64::MAX as int,
            )
            &&& is_counted_together(
                telemetry.eos_padding_samples as int,
                charge.samples as int,
                after.eos_padding_samples as int,
                u64::MAX as int,
            )
            &&& after.reserved() == telemetry.reserved()
            &&& after.peak_retained_blocks == telemetry.peak_retained_blocks
        }),
{
}

proof fn lemma_pushing_keeps_peaks(
    lane: LaneModel,
    pages: Seq<ValidatedCompletedAudioPage>,
    pushed: Seq<Result<NativeAudioCharge, OutsideFailure>>,
)
    ensures
        ({
            let after = audio_cycle::pages_pushed(lane, pages, pushed).0.audio_telemetry;
            &&& after.peak_retained_blocks == lane.audio_telemetry.peak_retained_blocks
            &&& after.peak_retained_samples == lane.audio_telemetry.peak_retained_samples
            &&& after.peak_retained_bytes == lane.audio_telemetry.peak_retained_bytes
        }),
    decreases pages.len(),
{
    if pages.len() > 0 {
        let (after, _) = audio_master::with_committed(
            lane,
            pages.last(),
            pushed[pages.len() - 1],
        );
        lemma_pushing_keeps_peaks(after, pages.drop_last(), pushed);
    }
}

/// Once pages have been pushed, the peaks cover what the lane holds with them.
pub proof fn peaks_cover_what_was_pushed(
    lane: LaneModel,
    start: u64,
    end: u64,
    retained: NativeAudioCharge,
    pages: Seq<ValidatedCompletedAudioPage>,
    event: ServiceEvent,
    max_block_samples: usize,
)
    requires
        event is Pushed,
        audio_cycle::service_step(
            lane,
            ServiceModel::Pages { start_sample: start, end_sample: end, retained, pages },
            event,
            max_block_samples,
        ).1 is Ok,
    ensures
        ({
            let after = audio_cycle::service_step(
                lane,
                ServiceModel::Pages { start_sample: start, end_sample: end, retained, pages },
                event,
                max_block_samples,
            ).0.audio_telemetry;
            let before = lane.audio_telemetry;
            &&& is_peak_over(
                before.peak_retained_blocks,
                retained.blocks,
                after.peak_retained_blocks,
            )
            &&& is_peak_over(
                before.peak_retained_samples,
                retained.samples,
                after.peak_retained_samples,
            )
            &&& is_peak_over(before.peak_retained_bytes, retained.bytes, after.peak_retained_bytes)
        }),
{
    lemma_pushing_keeps_peaks(lane, pages, event->Pushed_0@);
}

/// What the lanes of clips hold is told together with what the program holds: one clip more adds
/// what its lane holds.
pub proof fn what_clips_hold_is_told_too(
    first: NativeAudioCharge,
    telemetry: NativeAudioTelemetry,
    masters: Seq<(InputId, LaneModel)>,
    added: (InputId, LaneModel),
)
    ensures
        audio_playback::merged_blocks(first.blocks, Seq::empty()) == first.blocks,
        audio_playback::merged_samples(first.samples, Seq::empty()) == first.samples,
        audio_playback::merged_bytes(first.bytes, Seq::empty()) == first.bytes,
        audio_playback::merged_counts(telemetry, Seq::empty()) == telemetry,
        ({
            let held = audio_master::held_by(added.1.sources);
            let most = usize::MAX as int;
            &&& is_counted_together(
                audio_playback::merged_blocks(first.blocks, masters) as int,
                held.blocks as int,
                audio_playback::merged_blocks(first.blocks, masters.push(added)) as int,
                most,
            )
            &&& is_counted_together(
                audio_playback::merged_samples(first.samples, masters) as int,
                held.samples as int,
                audio_playback::merged_samples(first.samples, masters.push(added)) as int,
                most,
            )
            &&& is_counted_together(
                audio_playback::merged_bytes(first.bytes, masters) as int,
                held.bytes as int,
                audio_playback::merged_bytes(first.bytes, masters.push(added)) as int,
                most,
            )
            &&& audio_playback::merged_counts(telemetry, masters.push(added))
                == audio_playback::merged_counts(telemetry, masters).merged(
                added.1.audio_telemetry,
            )
        }),
{
    assert(masters.push(added).drop_last() =~= masters);
}

/// The Stinger of a frame is covered where nothing had to be done for it, or where the lane of
/// its clip covers the frame; only then is it ready.
pub proof fn stingers_are_ready_once_covered(
    playback: PlaybackModel,
    begun: Option<StingerService>,
    clip: bool,
)
    ensures
        audio_playback::stinger_covered(begun, clip) <==> (begun matches Some(StingerService::Covered)) || (
        begun matches Some(StingerService::Clip { .. })) && clip,
        ({
            let after = audio_playback::serviced(playback, begun, clip);
            &&& begun matches Some(StingerService::Clip { request, .. }) ==> (clip ==> after.ready
                == Some(request)) && (!clip ==> after.ready is None)
            &&& !(begun matches Some(StingerService::Clip { .. })) ==> after == playback
            &&& after.masters == playback.masters
            &&& after.active_trigger == playback.active_trigger
        }),
{
}

/// Whether no part from `from` up to `to` is of an input.
pub open spec fn is_not_played(
    parts: Seq<(InputId, SourceRender)>,
    from: int,
    to: int,
    input: InputId,
) -> bool {
    forall|k: int| from <= k < to ==> (#[trigger] parts[k]).0 != input
}

proof fn lemma_played(
    lane: LaneModel,
    input: InputId,
    committed: Result<NativeAudioCharge, OutsideFailure>,
)
    requires
        lane.wf(),
    ensures
        ({
            let (after, outcome) = audio_render::played(lane, input, committed);
            &&& after.wf()
            &&& forall|other: InputId|
                other != input ==> #[trigger] after.source(other) == lane.source(other)
            &&& outcome is Ok ==> (lane.source(input) matches Some(source)
                && source.synchronizer matches Some(synchronizer)
                && committed matches Ok(buffered) && after.source(input) == Some(
                NativeAudioSource {
                    synchronizer: Some(Synchronizer { buffered, ..synchronizer }),
                    ..source
                },
            ))
        }),
{
    if let Some(source) = lane.source(input) {
        ordered::lemma_entry_pairs(lane.sources, input);
        assert(lane.sources.contains((input, source)));
        let i = choose|i: int| 0 <= i < lane.sources.len() && lane.sources[i] == (input, source);
        assert(lane.sources[i].1.wf());
        if let (Some(synchronizer), Ok(buffered)) = (source.synchronizer, committed) {
            audio_master::lemma_with_source(
                lane,
                input,
                NativeAudioSource {
                    synchronizer: Some(Synchronizer { buffered, ..synchronizer }),
                    ..source
                },
            );
        }
    }
}

proof fn lemma_playing_keeps(
    lane: LaneModel,
    parts: Seq<(InputId, SourceRender)>,
    played: Seq<Result<NativeAudioCharge, OutsideFailure>>,
    i: int,
    input: InputId,
)
    requires
        lane.wf(),
        0 <= i,
        is_not_played(parts, i, parts.len() as int, input),
    ensures
        audio_cycle::parts_played(lane, parts, played, i).0.source(input) == lane.source(input),
    decreases parts.len() - i,
{
    if i < parts.len() {
        lemma_played(lane, parts[i].0, played[i]);
        let (after, outcome) = audio_render::played(lane, parts[i].0, played[i]);
        assert(after.source(input) == lane.source(input));
        if outcome is Ok {
            lemma_playing_keeps(after, parts, played, i + 1, input);
        }
    }
}

proof fn lemma_playing(
    lane: LaneModel,
    parts: Seq<(InputId, SourceRender)>,
    played: Seq<Result<NativeAudioCharge, OutsideFailure>>,
    i: int,
    place: int,
)
    requires
        lane.wf(),
        0 <= i <= place < parts.len(),
        is_not_played(parts, i, place, parts[place].0),
        is_not_played(parts, place + 1, parts.len() as int, parts[place].0),
    ensures
        ({
            let (after, outcome) = audio_cycle::parts_played(lane, parts, played, i);
            let input = parts[place].0;
            outcome is Ok ==> (lane.source(input) matches Some(source)
                && source.synchronizer matches Some(synchronizer)
                && played[place] matches Ok(buffered) && after.source(input) == Some(
                NativeAudioSource {
                    synchronizer: Some(Synchronizer { buffered, ..synchronizer }),
                    ..source
                },
            ))
        }),
    decreases parts.len() - i,
{
    lemma_played(lane, parts[i].0, played[i]);
    let (after, outcome) = audio_render::played(lane, parts[i].0, played[i]);
    if outcome is Ok {
        if i < place {
            assert(after.source(parts[place].0) == lane.source(parts[place].0));
            lemma_playing(after, parts, played, i + 1, place);
        } else {
            lemma_playing_keeps(after, parts, played, i + 1, parts[place].0);
        }
    }
}

/// Every part that is played is taken from the synchronizer of its own source: the source holds
/// what that holds then, and stays as it is otherwise.
pub proof fn every_part_is_played_by_its_source(
    lane: LaneModel,
    parts: Seq<(InputId, SourceRender)>,
    played: Seq<Result<NativeAudioCharge, OutsideFailure>>,
    place: int,
)
    requires
        lane.wf(),
        0 <= place < parts.len(),
        is_not_played(parts, 0, place, parts[place].0),
        is_not_played(parts, place + 1, parts.len() as int, parts[place].0),
    ensures
        ({
            let (after, outcome) = audio_cycle::parts_played(lane, parts, played, 0);
            let input = parts[place].0;
            outcome is Ok ==> (lane.source(input) matches Some(source)
                && source.synchronizer matches Some(synchronizer)
                && played[place] matches Ok(buffered) && after.source(input) == Some(
                NativeAudioSource {
                    synchronizer: Some(Synchronizer { buffered, ..synchronizer }),
                    ..source
                },
            ))
        }),
{
    lemma_playing(lane, parts, played, 0, place);
}

} // verus!
