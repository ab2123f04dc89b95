//! How the audio of sources is set up against their video and the program.
use vstd::prelude::*;

use crate::audio_limits::{
    NativeAudioCharge, NativeAudioLimits, NativeMasterError, ValidatedAudioPage,
    MAX_NATIVE_AUDIO_STRIPS,
};
use crate::audio_master::LaneModel;
use crate::audio_mix;
use crate::audio_mix::StripState;
use crate::audio_opening;
use crate::audio_opening::{OpeningEvent, OpeningModel, ProbedAudio, WindowModel};
use crate::audio_preflight;
use crate::audio_preflight::{AudioBudget, AudioPosition, SynchronizerPlan};
use crate::audio_project;
use crate::audio_route::NativeAudioRoute;
use crate::audio_setup;
use crate::audio_setup::{PreflightModel, StripAction};
use crate::audio_source;
use crate::audio_source::{AudioBlock, AudioPageRules, NativeAudioSource};
use crate::audio_timing;
use crate::audio_timing::AudioCadenceOrigin;
use crate::lane_laws;
use crate::model::{ClockDomainId, FrameRate, InputId, OutsideFailure, StingerSlotId};
use crate::ordered;
use crate::project_plan::{NativeProjectPlan, NativeStingerConfig};
use crate::source::NativeResolvedSource;

verus! {

/// How many sources share what may be held: at least one.
pub open spec fn sharers(source_count: usize) -> int {
    if source_count > 0 {
        source_count as int
    } else {
        1
    }
}

/// Whether a share is the largest that all can get of what is left.
pub open spec fn is_even_share(share: int, sharers: int, whole: int, used: int) -> bool {
    share * sharers + used <= whole < (share + 1) * sharers + used
}

proof fn lemma_even_share(sharers: int, whole: int, used: int)
    requires
        sharers > 0,
        used <= whole,
    ensures
        is_even_share((whole - used) / sharers, sharers, whole, used),
{
    let left = whole - used;
    let share = left / sharers;
    assert(share * sharers <= left < (share + 1) * sharers) by (nonlinear_arith)
        requires
            sharers > 0,
            share == left / sharers,
    ;
}

/// What is known before any source is opened: a frame of the Master is the shortest that holds
/// all its samples, the sources share evenly what rendering leaves of the bounds, and the lane
/// begins with the first sample of its next frame.
pub proof fn budgets_share_out_what_is_left(
    sample_rate: u32,
    channels: usize,
    frame_rate: FrameRate,
    source_count: usize,
    expected_next_frame: u64,
    limits: NativeAudioLimits,
    max_mapping_channels: usize,
    budget: AudioBudget,
)
    requires
        sample_rate > 0,
        frame_rate.wf(),
        audio_preflight::budget_of(
            sample_rate,
            channels,
            frame_rate,
            source_count,
            expected_next_frame,
            limits,
            max_mapping_channels,
        ) == Ok::<AudioBudget, NativeMasterError>(budget),
    ensures
        (budget.output_samples - 1) * frame_rate.numerator < sample_rate * frame_rate.denominator
            <= budget.output_samples * frame_rate.numerator,
        ({
            let count = sharers(source_count);
            let output = budget.output_samples as int;
            &&& is_even_share(
                budget.source_samples as int,
                count,
                limits.max_retained_samples as int,
                output * (count + 1),
            )
            &&& is_even_share(
                budget.source_bytes as int,
                count,
                limits.max_retained_bytes as int,
                output * (count * max_mapping_channels + channels) * 4,
            )
        }),
        budget.source_samples > 0,
        budget.source_bytes > 0,
        budget.master_start_sample * frame_rate.numerator <= expected_next_frame * (sample_rate
            * frame_rate.denominator) < (budget.master_start_sample + 1) * frame_rate.numerator,
        lane_laws::is_begin_of(
            budget.master_start_timestamp as int,
            budget.master_start_sample as int,
            sample_rate,
        ),
{
    let output = audio_preflight::frame_samples(sample_rate, frame_rate);
    let whole = sample_rate * frame_rate.denominator;
    let rate = frame_rate.numerator as int;
    assert((output - 1) * rate < whole <= output * rate) by (nonlinear_arith)
        requires
            rate > 0,
            output == (whole + rate - 1) / rate,
    ;
    let count = sharers(source_count);
    assert(output >= 0) by (nonlinear_arith)
        requires
            rate > 0,
            0 <= whole <= output * rate,
    ;
    lemma_even_share(count, limits.max_retained_samples as int, output * (count + 1));
    lemma_even_share(
        count,
        limits.max_retained_bytes as int,
        output * (count * max_mapping_channels + channels) * 4,
    );
    audio_timing::frame_spans_are_contiguous(expected_next_frame as int, sample_rate, frame_rate);
    crate::audio_master::lemma_frames_do_not_descend(
        0,
        expected_next_frame as int,
        sample_rate,
        frame_rate,
    );
    crate::audio_master::lemma_frames_do_not_descend(
        expected_next_frame as int,
        expected_next_frame + 1,
        sample_rate,
        frame_rate,
    );
    let start = audio_timing::frame_start(expected_next_frame as int, sample_rate, frame_rate);
    audio_timing::lemma_boundary_is_floor(start, sample_rate);
    let samples = (limits.max_retained_samples - output * (count + 1)) / count;
    let bytes = (limits.max_retained_bytes - output * (count * max_mapping_channels + channels) * 4)
        / count;
    assert(0 <= samples <= limits.max_retained_samples) by (nonlinear_arith)
        requires
            count > 0,
            0 <= output * (count + 1) <= limits.max_retained_samples,
            samples == (limits.max_retained_samples - output * (count + 1)) / count,
    ;
    let used = output * (count * max_mapping_channels + channels) * 4;
    assert(used >= 0) by (nonlinear_arith)
        requires
            output >= 0,
            count > 0,
            used == output * (count * max_mapping_channels + channels) * 4,
    ;
    assert(0 <= bytes <= limits.max_retained_bytes) by (nonlinear_arith)
        requires
            count > 0,
            0 <= used <= limits.max_retained_bytes,
            bytes == (limits.max_retained_bytes - used) / count,
    ;
}

/// Whether limits can be kept at all: a page fits into what may be held, and nothing that has to
/// be there is nothing.
pub open spec fn are_usable(limits: NativeAudioLimits, channels: usize) -> bool {
    &&& limits.max_blocks_per_page <= limits.max_blocks_per_source
    &&& 0 < limits.max_samples_per_page <= limits.max_retained_samples
    &&& limits.max_samples_per_page * channels * 4 <= limits.max_retained_bytes
    &&& limits.max_retained_blocks > 0
    &&& limits.max_position_blocks > 0
    &&& limits.max_leading_silence_samples > 0
    &&& limits.sink_blocks > 0
}

/// Limits are accepted exactly where they can be kept.
pub proof fn usable_limits_are_accepted(limits: NativeAudioLimits, channels: usize)
    ensures
        crate::audio_limits::checked_limits(limits, channels) is Ok <==> are_usable(
            limits,
            channels,
        ),
{
}

/// Whether a sample is the one that is heard at a time: it has begun by then, and the next has
/// not.
pub open spec fn is_heard_at(
    origin: AudioCadenceOrigin,
    sample: int,
    timestamp: int,
    sample_rate: u32,
) -> bool {
    audio_timing::time_of(origin, sample, sample_rate) <= timestamp < audio_timing::time_of(
        origin,
        sample + 1,
        sample_rate,
    )
}

proof fn lemma_heard(origin: AudioCadenceOrigin, timestamp: int, sample_rate: u32)
    requires
        sample_rate > 0,
        audio_timing::sample_at(origin, timestamp, sample_rate) >= 0,
    ensures
        is_heard_at(
            origin,
            audio_timing::sample_at(origin, timestamp, sample_rate),
            timestamp,
            sample_rate,
        ),
{
    let sample = audio_timing::sample_at(origin, timestamp, sample_rate);
    let first = origin.sample_index as int;
    audio_timing::lemma_boundary_is_floor(first, sample_rate);
    audio_timing::lemma_boundary_is_floor(sample, sample_rate);
    audio_timing::lemma_boundary_is_floor(sample + 1, sample_rate);
    let first_ns = audio_timing::sample_boundary(first, sample_rate);
    lane_laws::samples_are_heard_once_they_begin(
        origin,
        timestamp,
        sample_rate,
        sample,
        first_ns,
        audio_timing::sample_boundary(sample, sample_rate),
    );
    lane_laws::samples_are_heard_once_they_begin(
        origin,
        timestamp,
        sample_rate,
        sample + 1,
        first_ns,
        audio_timing::sample_boundary(sample + 1, sample_rate),
    );
}

/// Whether a sample of the Master is the first that does not begin before audio that begins so
/// much after its video; audio that does not begin after its video is heard from the begin.
pub open spec fn is_first_after(offset: int, sample: int, sample_rate: u32) -> bool {
    &&& offset <= 0 ==> sample == 0
    &&& offset > 0 ==> (sample - 1) * 1_000_000_000 < offset * sample_rate <= sample
        * 1_000_000_000
}

/// The later of two instants.
pub open spec fn later_of(a: int, b: int) -> int {
    if a < b {
        b
    } else {
        a
    }
}

/// Audio stays with its video: it is heard as much later as it begins later, and playing begins
/// with the sample that is heard at the time that the program has come to, or with the first
/// where the audio has not begun by then. The first block is used where it holds that sample.
pub proof fn audio_stays_with_its_video(
    input: InputId,
    first: AudioBlock,
    first_video_pts: Option<i64>,
    clock_domain: ClockDomainId,
    sample_rate: u32,
    budget: AudioBudget,
    limits: NativeAudioLimits,
    position: AudioPosition,
)
    requires
        first.sample_rate > 0,
        first.timing.original.time_base.denominator > 0,
        audio_preflight::position_of(
            input,
            first,
            first_video_pts,
            clock_domain,
            sample_rate,
            budget,
            limits,
        ) == Ok::<AudioPosition, NativeMasterError>(position),
    ensures
        first.timing.clock_domain == clock_domain,
        first_video_pts matches Some(video) && {
            let audio = first.timing.presentation_ns;
            &&& is_first_after(
                audio - video,
                position.audio_start_master_sample as int,
                sample_rate,
            )
            &&& is_heard_at(
                position.origin,
                position.target_source_sample as int,
                later_of(video + budget.master_start_timestamp, audio as int),
                first.sample_rate,
            )
            &&& position.origin.timestamp_ns == audio
        },
        position.origin.sample_index < first.sample_rate,
        exists|seconds: int|
            #![trigger seconds * first.sample_rate]
            (seconds * first.sample_rate + position.origin.sample_index)
                * first.timing.original.time_base.denominator == first.timing.original.ticks
                * first.timing.original.time_base.numerator * first.sample_rate,
        position.source_rate == first.sample_rate,
        position.layout == first.layout,
        position.audio_start_master_sample <= limits.max_leading_silence_samples,
        position.target_ordinal + position.origin.sample_index == position.target_source_sample,
        position.next_sequence == first.timing.sequence + 1,
        position.reuses_first_window <==> position.target_source_sample
            < position.origin.sample_index + first.sample_count,
{
    let video = first_video_pts->Some_0;
    let audio = first.timing.presentation_ns;
    let sample = audio_timing::whole_samples(first.timing, first.sample_rate)->Some_0;
    let rate = first.sample_rate as int;
    let phase = sample % rate;
    let seconds = sample / rate;
    assert(0 <= phase < rate && seconds * rate + phase == sample) by (nonlinear_arith)
        requires
            rate > 0,
            phase == sample % rate,
            seconds == sample / rate,
    ;
    assert((seconds * first.sample_rate + position.origin.sample_index)
        * first.timing.original.time_base.denominator == first.timing.original.ticks
        * first.timing.original.time_base.numerator * first.sample_rate);
    lemma_heard(
        position.origin,
        later_of(video + budget.master_start_timestamp, audio as int),
        first.sample_rate,
    );
    if audio - video > 0 {
        lane_laws::audio_begins_with_the_first_sample(audio - video, sample_rate);
        let start = audio_timing::sample_not_before(audio - video, sample_rate);
        assert((audio - video) * sample_rate >= 0) by (nonlinear_arith)
            requires
                audio - video > 0,
                sample_rate >= 0,
        ;
        assert(start >= 0);
    }
}

/// A source is mapped to the Master with its video: both clocks are told apart by when its video
/// begins, the Master begins where the audio is heard and the lane stands, and the source with
/// its first block, or where playing would begin.
pub proof fn synchronizers_follow_the_video(
    input: InputId,
    position: AudioPosition,
    first_video_pts: i64,
    first: Option<AudioBlock>,
    sample_rate: u32,
    budget: AudioBudget,
    limits: NativeAudioLimits,
    mapped: bool,
    limited: Result<(), OutsideFailure>,
    plan: SynchronizerPlan,
)
    requires
        sample_rate > 0,
        position.source_rate > 0,
        audio_preflight::synchronizer_plan(
            input,
            position,
            first_video_pts,
            first,
            sample_rate,
            budget,
            limits,
            mapped,
            limited,
        ) == Ok::<SynchronizerPlan, NativeMasterError>(plan),
    ensures
        mapped && limited is Ok,
        plan.source_anchor_ns - plan.master_anchor_ns == first_video_pts,
        plan.source_anchor_ns == 0 || plan.master_anchor_ns == 0,
        plan.master_origin.sample_index == later_of(
            budget.master_start_sample as int,
            position.audio_start_master_sample as int,
        ),
        lane_laws::is_begin_of(
            plan.master_origin.timestamp_ns as int,
            plan.master_origin.sample_index as int,
            sample_rate,
        ),
        first matches Some(block) ==> plan.source_origin.timestamp_ns
            == block.timing.presentation_ns && is_heard_at(
            position.origin,
            plan.source_origin.sample_index as int,
            block.timing.presentation_ns as int,
            position.source_rate,
        ),
        first is None ==> plan.source_origin.sample_index == position.target_source_sample
            && plan.source_origin.timestamp_ns == audio_timing::time_of(
            position.origin,
            position.target_source_sample as int,
            position.source_rate,
        ),
        plan.max_blocks == limits.max_blocks_per_source,
        plan.max_samples == budget.source_samples,
        plan.max_bytes == budget.source_bytes,
        plan.max_output_samples == budget.output_samples,
{
    let master = audio_preflight::later(
        budget.master_start_sample,
        position.audio_start_master_sample,
    );
    audio_timing::lemma_boundary_is_floor(master as int, sample_rate);
    if let Some(block) = first {
        lemma_heard(
            position.origin,
            block.timing.presentation_ns as int,
            position.source_rate,
        );
    }
}

/// Whether a source plays its first page and what is decoded behind it.
pub open spec fn plays_from(
    source: NativeAudioSource,
    setup: PreflightModel,
    position: AudioPosition,
    plan: SynchronizerPlan,
    blocks: Seq<AudioBlock>,
    next_sequence: u64,
    buffered: NativeAudioCharge,
) -> bool {
    &&& !source.explicit_silence
    &&& source.timeline_origin == position.origin
    &&& source.audio_start_master_sample == position.audio_start_master_sample
    &&& source.synchronizer matches Some(synchronizer) && {
        &&& synchronizer.source_rate == position.source_rate
        &&& synchronizer.layout == position.layout
        &&& synchronizer.source_domain == setup.clock_domain
        &&& synchronizer.source_origin == plan.source_origin
        &&& synchronizer.master_origin == plan.master_origin
        &&& synchronizer.max_samples == plan.max_samples
        &&& synchronizer.max_bytes == plan.max_bytes
        &&& synchronizer.buffered == buffered
    }
    &&& source.next_sample == plan.source_origin.sample_index + audio_source::total_samples(blocks)
    &&& source.next_sequence == source.restart_sequence + blocks.len()
    &&& source.restart_sequence == (if blocks.len() > 0 {
        blocks[0].timing.sequence
    } else {
        next_sequence
    })
    &&& source.restart_sample == plan.source_origin.sample_index
    &&& source.restart_target_ordinal == position.target_ordinal
    &&& source.in_flight is None
    &&& !source.restart_decode
    &&& source.decode_generation == 0
}

/// A source that is taken in stands behind its first page, has ended where its decoder has, and
/// can be played anew from where the page begins.
pub proof fn sources_stand_behind_their_first_page(
    setup: PreflightModel,
    input: InputId,
    position: AudioPosition,
    plan: SynchronizerPlan,
    blocks: Seq<AudioBlock>,
    end_of_stream: bool,
    next_sequence: u64,
    pushed: Result<NativeAudioCharge, OutsideFailure>,
    after: PreflightModel,
)
    requires
        setup.wf(),
        audio_setup::admitted(
            setup,
            input,
            position,
            plan,
            blocks,
            end_of_stream,
            next_sequence,
            pushed,
        ) == Ok::<PreflightModel, NativeMasterError>(after),
    ensures
        ordered::collected(after.sources).contains_key(input),
        pushed matches Ok(buffered) && plays_from(
            ordered::collected(after.sources)[input],
            setup,
            position,
            plan,
            blocks,
            next_sequence,
            buffered,
        ),
        ordered::collected(after.sources)[input].end_of_stream == end_of_stream,
        after.audio_telemetry == setup.audio_telemetry,
{
    let page = audio_setup::first_page(setup, input, position, plan, blocks, next_sequence)->Ok_0;
    if blocks.len() > 0 {
        audio_source::page_moves_by_its_samples(
            AudioPageRules {
                input,
                sample_rate: blocks[0].sample_rate,
                layout: blocks[0].layout,
                timeline_origin: position.origin,
                clock_domain: setup.clock_domain,
            },
            plan.source_origin.sample_index,
            blocks[0].timing.sequence,
            blocks,
        );
    }
    ordered::lemma_with_entry(
        setup.sources,
        input,
        ordered::collected(after.sources)[input],
    );
    let made = NativeAudioSource {
        explicit_silence: false,
        synchronizer: Some(
            audio_setup::synchronizer_of(setup, position, plan, pushed->Ok_0),
        ),
        timeline_origin: position.origin,
        next_sample: page.next_sample,
        next_sequence: page.next_sequence,
        audio_start_master_sample: position.audio_start_master_sample,
        end_of_stream,
        in_flight: None,
        decode_generation: 0,
        restart_decode: false,
        restart_sample: plan.source_origin.sample_index,
        restart_sequence: if blocks.len() == 0 {
            next_sequence
        } else {
            blocks[0].timing.sequence
        },
        restart_target_ordinal: position.target_ordinal,
    };
    ordered::lemma_with_entry(setup.sources, input, made);
}

/// The medium of a Stinger is asked for exactly where a Stinger that is preloaded and not muted
/// names it.
pub proof fn media_that_are_heard_are_asked_for(
    stingers: Seq<(StingerSlotId, NativeStingerConfig)>,
    input: InputId,
)
    ensures
        ordered::ascending(audio_setup::heard_media(stingers)),
        audio_setup::heard_media(stingers).contains(input) <==> exists|i: int|
            0 <= i < stingers.len() && (#[trigger] stingers[i]).1.media_input == input
                && stingers[i].1.preload && !(stingers[i].1.audio_policy is Muted),
    decreases stingers.len(),
{
    if stingers.len() > 0 {
        let rest = stingers.drop_last();
        media_that_are_heard_are_asked_for(rest, input);
        ordered::lemma_with_key(
            audio_setup::heard_media(rest),
            stingers.last().1.media_input,
        );
        if audio_setup::heard_media(rest).contains(input) {
            let i = choose|i: int|
                0 <= i < rest.len() && (#[trigger] rest[i]).1.media_input == input
                    && rest[i].1.preload && !(rest[i].1.audio_policy is Muted);
            assert(stingers[i] == rest[i]);
        }
        if exists|i: int|
            0 <= i < stingers.len() && (#[trigger] stingers[i]).1.media_input == input
                && stingers[i].1.preload && !(stingers[i].1.audio_policy is Muted) {
            let i = choose|i: int|
                0 <= i < stingers.len() && (#[trigger] stingers[i]).1.media_input == input
                    && stingers[i].1.preload && !(stingers[i].1.audio_policy is Muted);
            if i < rest.len() {
                assert(rest[i] == stingers[i]);
            }
        }
        assert(stingers[stingers.len() - 1] == stingers.last());
    }
}

/// Audio finds its place wherever its first block begins with a whole sample on the clock of the
/// project, its video has a first frame, and the silence before it is not too long.
pub proof fn audio_finds_its_place(
    input: InputId,
    first: AudioBlock,
    video: i64,
    clock_domain: ClockDomainId,
    sample_rate: u32,
    budget: AudioBudget,
    limits: NativeAudioLimits,
    first_sample: int,
)
    requires
        first.sample_rate > 0,
        first.timing.original.time_base.denominator > 0,
        first.timing.clock_domain == clock_domain,
        first_sample * first.timing.original.time_base.denominator == first.timing.original.ticks
            * first.timing.original.time_base.numerator * first.sample_rate,
        i64::MIN <= first.timing.presentation_ns - video <= i64::MAX,
        i64::MIN <= video + budget.master_start_timestamp <= i64::MAX,
        first.timing.presentation_ns - video > 0 ==> (first.timing.presentation_ns - video)
            * sample_rate <= limits.max_leading_silence_samples * 1_000_000_000,
        first.timing.sequence < u64::MAX,
        ({
            let target = audio_timing::sample_at(
                AudioCadenceOrigin {
                    timestamp_ns: first.timing.presentation_ns,
                    sample_index: (first_sample % first.sample_rate as int) as u64,
                },
                later_of(
                    video + budget.master_start_timestamp,
                    first.timing.presentation_ns as int,
                ),
                first.sample_rate,
            );
            &&& target <= u64::MAX
            &&& target - first_sample % first.sample_rate as int <= usize::MAX
        }),
    ensures
        audio_preflight::position_of(
            input,
            first,
            Some(video),
            clock_domain,
            sample_rate,
            budget,
            limits,
        ) is Ok,
{
    let scaled = first.timing.original.ticks * first.timing.original.time_base.numerator
        * first.sample_rate;
    let denominator = first.timing.original.time_base.denominator as int;
    assert(audio_timing::truncated(scaled, denominator) == first_sample) by (nonlinear_arith)
        requires
            denominator > 0,
            first_sample * denominator == scaled,
            audio_timing::truncated(scaled, denominator) == (if scaled >= 0 {
                scaled / denominator
            } else {
                -((-scaled) / denominator)
            }),
    ;
    let audio = first.timing.presentation_ns;
    let phase = first_sample % first.sample_rate as int;
    assert(0 <= phase < first.sample_rate);
    let origin = AudioCadenceOrigin { timestamp_ns: audio, sample_index: phase as u64 };
    let time = later_of(video + budget.master_start_timestamp, audio as int);
    audio_timing::lemma_boundary_is_floor(phase, first.sample_rate);
    let begin = audio_timing::sample_boundary(phase, first.sample_rate);
    lane_laws::samples_are_heard_once_they_begin(
        origin,
        time,
        first.sample_rate,
        phase,
        begin,
        begin,
    );
    if audio - video > 0 {
        lane_laws::audio_begins_with_the_first_sample(audio - video, sample_rate);
    }
}

/// The settings of a strip are found for every source, in order, or there is a source that the
/// project has no strip for.
pub proof fn every_source_gets_its_strip(
    project: NativeProjectPlan,
    sources: Seq<(InputId, NativeAudioSource)>,
)
    ensures
        match audio_setup::source_states(project, sources) {
            Ok(states) => states.len() == sources.len() && forall|i: int|
                0 <= i < sources.len() ==> (#[trigger] states[i]).0 == sources[i].0
                    && project.audio_strips.lookup(sources[i].0) is Some && states[i].1
                    == audio_mix::strip_of(project.audio_strips.lookup(sources[i].0)->Some_0),
            Err(error) => exists|i: int|
                0 <= i < sources.len() && project.audio_strips.lookup((#[trigger] sources[i]).0)
                    is None && error == (NativeMasterError::MissingAudioRoute {
                    input: sources[i].0,
                }),
        },
    decreases sources.len(),
{
    if sources.len() > 0 {
        let rest = sources.drop_last();
        every_source_gets_its_strip(project, rest);
        match audio_setup::source_states(project, rest) {
            Err(error) => {
                let i = choose|i: int|
                    0 <= i < rest.len() && project.audio_strips.lookup((#[trigger] rest[i]).0)
                        is None && error == (NativeMasterError::MissingAudioRoute {
                        input: rest[i].0,
                    });
                assert(sources[i] == rest[i]);
            },
            Ok(states) => {
                assert(sources[sources.len() - 1] == sources.last());
                if let Ok(all) = audio_setup::source_states(project, sources) {
                    assert forall|i: int| 0 <= i < sources.len() implies (#[trigger] all[i]).0
                        == sources[i].0 && project.audio_strips.lookup(sources[i].0) is Some
                        && all[i].1 == audio_mix::strip_of(
                        project.audio_strips.lookup(sources[i].0)->Some_0,
                    ) by {
                        if i < rest.len() {
                            assert(all[i] == states[i]);
                            assert(sources[i] == rest[i]);
                        }
                    }
                }
            },
        }
    }
}

/// What the mixer has to learn of an input that has no source of its own.
pub open spec fn is_told_of(
    action: StripAction,
    input: InputId,
    route: NativeAudioRoute,
    state: StripState,
) -> bool {
    match route {
        NativeAudioRoute::Leaf(source) => action == (StripAction::Alias { input, source, state }),
        NativeAudioRoute::Silence => action == (StripAction::Silence { input, state }),
    }
}

/// Whether an input that has no source of its own has a strip and a route, and the mixer learns
/// of both.
pub open spec fn is_joined(
    project: NativeProjectPlan,
    input: InputId,
    sources: Seq<(InputId, NativeAudioSource)>,
    actions: Seq<StripAction>,
) -> bool {
    &&& project.audio_strips.lookup(input) matches Some(strip)
        && project.audio_routes.lookup(input) matches Some(route) && exists|k: int|
        0 <= k < actions.len() && is_told_of(
            #[trigger] actions[k],
            input,
            route,
            audio_mix::strip_of(strip),
        )
    &&& project.audio_routes.lookup(input) == Some(NativeAudioRoute::Silence)
        ==> ordered::collected(sources).contains_key(input) && ordered::collected(
        sources,
    )[input].explicit_silence
}

proof fn lemma_joining(
    project: NativeProjectPlan,
    known: Seq<InputId>,
    sources: Seq<(InputId, NativeAudioSource)>,
    i: int,
    actions: Seq<StripAction>,
    wanted: InputId,
    place: int,
)
    requires
        0 <= i,
        ordered::ascending(ordered::entry_keys(sources)),
        0 <= place < project.audio_strips.entries@.len(),
        ordered::ascending(ordered::entry_keys(project.audio_strips.entries@)),
        project.audio_strips.entries@[place].0 == wanted,
        !known.contains(wanted),
        place < i ==> is_joined(project, wanted, sources, actions),
    ensures
        audio_setup::joined(project, known, sources, i, actions) matches Ok((after, told)) ==> {
            &&& is_joined(project, wanted, after, told)
            &&& actions.len() <= told.len()
            &&& told.take(actions.len() as int) == actions
        },
    decreases project.audio_strips.entries@.len() - i,
{
    let strips = project.audio_strips.entries@;
    if i >= strips.len() {
        assert(actions.take(actions.len() as int) =~= actions);
    } else {
        let input = strips[i].0;
        if known.contains(input) {
            lemma_joining(project, known, sources, i + 1, actions, wanted, place);
        } else if let Ok(state) = audio_mix::strip_state(project, input) {
            if let Some(route) = project.audio_routes.lookup(input) {
                let silent = ordered::with_entry(sources, input, NativeAudioSource::silent());
                ordered::lemma_with_entry(sources, input, NativeAudioSource::silent());
                let (next, told) = match route {
                    NativeAudioRoute::Leaf(source) => (
                        sources,
                        actions.push(StripAction::Alias { input, source, state }),
                    ),
                    NativeAudioRoute::Silence => (
                        silent,
                        actions.push(StripAction::Silence { input, state }),
                    ),
                };
                assert(is_told_of(told[actions.len() as int], input, route, state));
                if place < i {
                    let strip = project.audio_strips.lookup(wanted)->Some_0;
                    let wanted_route = project.audio_routes.lookup(wanted)->Some_0;
                    let k = choose|k: int|
                        0 <= k < actions.len() && is_told_of(
                            #[trigger] actions[k],
                            wanted,
                            wanted_route,
                            audio_mix::strip_of(strip),
                        );
                    assert(told[k] == actions[k]);
                }
                if place == i {
                    assert(is_joined(project, wanted, next, told));
                }
                lemma_joining(project, known, next, i + 1, told, wanted, place);
                if let Ok((_, all)) = audio_setup::joined(project, known, sources, i, actions) {
                    assert(all.take(actions.len() as int) =~= all.take(told.len() as int).take(
                        actions.len() as int,
                    ));
                    assert(told.take(actions.len() as int) =~= actions);
                }
            }
        }
    }
}

/// Every input of a project is joined to the lane: one that plays a source becomes an alias of
/// that source, and one that plays nothing becomes a silent source.
pub proof fn every_input_is_joined(
    project: NativeProjectPlan,
    sources: Seq<(InputId, NativeAudioSource)>,
    place: int,
    after: Seq<(InputId, NativeAudioSource)>,
    actions: Seq<StripAction>,
)
    requires
        ordered::ascending(ordered::entry_keys(sources)),
        ordered::ascending(ordered::entry_keys(project.audio_strips.entries@)),
        0 <= place < project.audio_strips.entries@.len(),
        audio_setup::joined(
            project,
            ordered::entry_keys(sources),
            sources,
            0,
            Seq::empty(),
        ) == Ok::<(Seq<(InputId, NativeAudioSource)>, Seq<StripAction>), NativeMasterError>(
            (after, actions),
        ),
    ensures
        ({
            let input = project.audio_strips.entries@[place].0;
            ordered::entry_keys(sources).contains(input) || is_joined(
                project,
                input,
                after,
                actions,
            )
        }),
{
    let input = project.audio_strips.entries@[place].0;
    if !ordered::entry_keys(sources).contains(input) {
        lemma_joining(
            project,
            ordered::entry_keys(sources),
            sources,
            0,
            Seq::empty(),
            input,
            place,
        );
    }
}

proof fn lemma_joining_keeps(
    project: NativeProjectPlan,
    known: Seq<InputId>,
    sources: Seq<(InputId, NativeAudioSource)>,
    i: int,
    actions: Seq<StripAction>,
    input: InputId,
)
    requires
        0 <= i,
        ordered::ascending(ordered::entry_keys(sources)),
        known.contains(input),
    ensures
        audio_setup::joined(project, known, sources, i, actions) matches Ok((after, _)) ==> {
            &&& ordered::collected(after).contains_key(input) == ordered::collected(
                sources,
            ).contains_key(input)
            &&& ordered::collected(after)[input] == ordered::collected(sources)[input]
        },
    decreases project.audio_strips.entries@.len() - i,
{
    let strips = project.audio_strips.entries@;
    if i < strips.len() {
        let joining = strips[i].0;
        lemma_joining_keeps(project, known, sources, i + 1, actions, input);
        if !known.contains(joining) {
            if let Ok(state) = audio_mix::strip_state(project, joining) {
                ordered::lemma_with_entry(sources, joining, NativeAudioSource::silent());
                match project.audio_routes.lookup(joining) {
                    None => {},
                    Some(NativeAudioRoute::Leaf(source)) => {
                        lemma_joining_keeps(
                            project,
                            known,
                            sources,
                            i + 1,
                            actions.push(StripAction::Alias { input: joining, source, state }),
                            input,
                        );
                    },
                    Some(NativeAudioRoute::Silence) => {
                        lemma_joining_keeps(
                            project,
                            known,
                            ordered::with_entry(sources, joining, NativeAudioSource::silent()),
                            i + 1,
                            actions.push(StripAction::Silence { input: joining, state }),
                            input,
                        );
                    },
                }
            }
        }
    }
}

/// The sources of a lane stay as they are when the inputs of a project are joined to it.
pub proof fn joining_keeps_the_sources(
    project: NativeProjectPlan,
    sources: Seq<(InputId, NativeAudioSource)>,
    after: Seq<(InputId, NativeAudioSource)>,
    actions: Seq<StripAction>,
    input: InputId,
)
    requires
        ordered::ascending(ordered::entry_keys(sources)),
        audio_setup::joined(
            project,
            ordered::entry_keys(sources),
            sources,
            0,
            Seq::empty(),
        ) == Ok::<(Seq<(InputId, NativeAudioSource)>, Seq<StripAction>), NativeMasterError>(
            (after, actions),
        ),
        ordered::collected(sources).contains_key(input),
    ensures
        ordered::collected(after).contains_key(input),
        ordered::collected(after)[input] == ordered::collected(sources)[input],
{
    ordered::lemma_entries_match_map(sources);
    lemma_joining_keeps(
        project,
        ordered::entry_keys(sources),
        sources,
        0,
        Seq::empty(),
        input,
    );
}

proof fn lemma_splitting(
    requested: Seq<InputId>,
    resolved: Seq<InputId>,
    has_audio: Seq<Result<bool, NativeMasterError>>,
    i: int,
    heard: Seq<InputId>,
    silent: Seq<InputId>,
    place: int,
)
    requires
        0 <= i,
        0 <= place < requested.len(),
        has_audio.len() == requested.len(),
        requested.no_duplicates(),
    ensures
        audio_setup::split_media(requested, resolved, has_audio, i, heard, silent) matches Ok(
            (with_audio, without),
        ) ==> {
            &&& with_audio.contains(requested[place]) <==> (heard.contains(requested[place])
                || i <= place && has_audio[place] == Ok::<bool, NativeMasterError>(true))
            &&& without.contains(requested[place]) <==> (silent.contains(requested[place])
                || i <= place && has_audio[place] == Ok::<bool, NativeMasterError>(false))
            &&& i <= place ==> resolved.contains(requested[place]) && has_audio[place] is Ok
        },
    decreases requested.len() - i,
{
    if i < requested.len() {
        lemma_pushed(heard, requested[i], requested[place]);
        lemma_pushed(silent, requested[i], requested[place]);
        assert(i != place ==> requested[i] != requested[place]);
        lemma_splitting(
            requested,
            resolved,
            has_audio,
            i + 1,
            heard.push(requested[i]),
            silent,
            place,
        );
        lemma_splitting(
            requested,
            resolved,
            has_audio,
            i + 1,
            heard,
            silent.push(requested[i]),
            place,
        );
    }
}

proof fn lemma_pushed<A>(elements: Seq<A>, added: A, element: A)
    ensures
        elements.push(added).contains(element) <==> (elements.contains(element) || added
            == element),
{
    ordered::lemma_contains_drop_last(elements.push(added), element);
    assert(elements.push(added).drop_last() =~= elements);
}

/// Of the media of Stingers, those that have audio are told apart from those that have none, and
/// each that is asked for has to be there.
pub proof fn media_are_told_apart(
    requested: Seq<InputId>,
    resolved: Seq<InputId>,
    has_audio: Seq<Result<bool, NativeMasterError>>,
    place: int,
    heard: Seq<InputId>,
    silent: Seq<InputId>,
)
    requires
        0 <= place < requested.len(),
        has_audio.len() == requested.len(),
        requested.no_duplicates(),
        audio_setup::split_media(
            requested,
            resolved,
            has_audio,
            0,
            Seq::empty(),
            Seq::empty(),
        ) == Ok::<(Seq<InputId>, Seq<InputId>), NativeMasterError>((heard, silent)),
    ensures
        resolved.contains(requested[place]),
        has_audio[place] is Ok,
        heard.contains(requested[place]) <==> has_audio[place] == Ok::<bool, NativeMasterError>(
            true,
        ),
        silent.contains(requested[place]) <==> has_audio[place] == Ok::<bool, NativeMasterError>(
            false,
        ),
{
    lemma_splitting(requested, resolved, has_audio, 0, Seq::empty(), Seq::empty(), place);
}

/// Whether an input has become one that is never heard, and the mixer is to learn so.
pub open spec fn is_left_silent(
    setup: PreflightModel,
    input: InputId,
    after: PreflightModel,
    next: Result<OpeningModel, NativeMasterError>,
) -> bool {
    &&& next == Ok::<OpeningModel, NativeMasterError>(
        OpeningModel::Mixer { source_layout: None, keeps_decoder: false },
    )
    &&& ordered::collected(after.sources).contains_key(input)
    &&& ordered::collected(after.sources)[input].explicit_silence
    &&& ordered::collected(after.sources)[input].end_of_stream
    &&& ordered::collected(after.sources)[input].synchronizer is None
    &&& after.retained == setup.retained
    &&& after.audio_telemetry == setup.audio_telemetry
}

/// Only the audio of files is looked for, and only where there is an adapter for it; whatever
/// else there is stays silent.
pub proof fn only_files_are_probed(
    setup: PreflightModel,
    source: NativeResolvedSource,
    has_adapter: bool,
)
    requires
        setup.wf(),
    ensures
        ({
            let (after, next) = audio_opening::opening_begun(setup, source, has_adapter);
            &&& source is LocalVideo && has_adapter ==> after == setup && next == Ok::<
                OpeningModel,
                NativeMasterError,
            >(OpeningModel::Probe)
            &&& source is LocalVideo && !has_adapter ==> after == setup && next is Err
            &&& !(source is LocalVideo) ==> is_left_silent(
                setup,
                source.source_input(),
                after,
                next,
            )
        }),
{
    ordered::lemma_with_entry(
        setup.sources,
        source.source_input(),
        NativeAudioSource::silent(),
    );
}

/// A file without audio stays silent. The audio of one that has some is opened exactly where the
/// stream that was selected has as many channels as the Master.
pub proof fn files_are_opened_for_their_audio(
    setup: PreflightModel,
    input: InputId,
    probed: ProbedAudio,
)
    requires
        setup.wf(),
        setup.layout.channels <= u32::MAX,
    ensures
        ({
            let (after, next) = audio_opening::opening_step(
                setup,
                input,
                OpeningModel::Probe,
                OpeningEvent::Probed(Ok(probed)),
            );
            &&& !probed.has_audio ==> is_left_silent(setup, input, after, next)
            &&& probed.has_audio ==> after == setup && (next == Ok::<
                OpeningModel,
                NativeMasterError,
            >(OpeningModel::Audio) <==> (probed.selected matches Ok(Some(channels)) && channels
                == setup.layout.channels)) && (next is Ok ==> next == Ok::<
                OpeningModel,
                NativeMasterError,
            >(OpeningModel::Audio))
        }),
{
    ordered::lemma_with_entry(setup.sources, input, NativeAudioSource::silent());
}

/// Whether an opening waits for one block that keeps to the bounds of a page.
pub open spec fn waits_for_one_block(setup: PreflightModel, stage: OpeningModel) -> bool {
    stage matches OpeningModel::FirstBlock { max_samples, page_bytes } && max_samples
        == setup.limits.max_samples_per_page && page_bytes == max_samples * setup.layout.channels
        * 4
}

/// Once its audio has been opened, one block of a file is decoded, within the bounds of a page.
pub proof fn one_block_is_decoded_first(setup: PreflightModel, input: InputId)
    ensures
        ({
            let (after, next) = audio_opening::opening_step(
                setup,
                input,
                OpeningModel::Audio,
                OpeningEvent::AudioOpened(Ok(())),
            );
            &&& after == setup
            &&& next matches Ok(stage) ==> waits_for_one_block(setup, stage)
            &&& next is Ok <==> setup.limits.max_samples_per_page * setup.layout.channels * 4
                <= usize::MAX
        }),
{
}

/// A file whose audio ends before it has begun stays silent. Where one block was brought, it is
/// kept, and the video is asked when it begins.
pub proof fn audio_that_never_begins_is_silent(
    setup: PreflightModel,
    input: InputId,
    stage: OpeningModel,
    event: OpeningEvent,
    blocks: Seq<AudioBlock>,
    end_of_stream: bool,
)
    requires
        setup.wf(),
        stage is FirstBlock,
        event matches OpeningEvent::Decoded(Ok(window)) && window.blocks@ == blocks
            && window.end_of_stream == end_of_stream,
    ensures
        ({
            let (after, next) = audio_opening::opening_step(setup, input, stage, event);
            &&& blocks.len() == 0 && end_of_stream ==> is_left_silent(setup, input, after, next)
            &&& blocks.len() == 1 ==> after == setup && (next matches Ok(
                OpeningModel::FirstFrame { first, window, page_bytes },
            ) && first == blocks[0] && window.blocks == blocks && window.end_of_stream
                == end_of_stream && stage->FirstBlock_page_bytes == page_bytes)
            &&& blocks.len() > 1 || blocks.len() == 0 && !end_of_stream ==> after == setup && next
                is Err
        }),
{
    ordered::lemma_with_entry(setup.sources, input, NativeAudioSource::silent());
}

/// Once audio has found its place, its first block is used where playing begins in it; otherwise
/// the decoder passes over the blocks before.
pub proof fn the_first_block_is_used_or_passed_over(
    setup: PreflightModel,
    input: InputId,
    first: AudioBlock,
    window: WindowModel,
    page_bytes: usize,
    first_video_pts: Option<i64>,
    next: OpeningModel,
)
    requires
        first.sample_rate > 0,
        first.timing.original.time_base.denominator > 0,
        audio_opening::opening_step(
            setup,
            input,
            OpeningModel::FirstFrame { first, window, page_bytes },
            OpeningEvent::FrameDecoded(Ok(first_video_pts)),
        ) == (setup, Ok::<OpeningModel, NativeMasterError>(next)),
    ensures
        match next {
            OpeningModel::Clocks {
                position,
                first_video_pts: video,
                window: kept,
                positioned_end,
                next_sequence,
            } => {
                &&& Some(video) == first_video_pts
                &&& kept == window
                &&& positioned_end == window.end_of_stream
                &&& next_sequence == first.timing.sequence + 1
                &&& position.target_source_sample < position.origin.sample_index
                    + first.sample_count
                &&& position.origin.timestamp_ns == first.timing.presentation_ns
            },
            OpeningModel::Pass {
                position,
                first_video_pts: video,
                max_position_blocks,
                page_bytes: bytes,
            } => {
                &&& Some(video) == first_video_pts
                &&& max_position_blocks == setup.limits.max_position_blocks
                &&& bytes == page_bytes
                &&& position.target_source_sample >= position.origin.sample_index
                    + first.sample_count
                &&& position.origin.timestamp_ns == first.timing.presentation_ns
            },
            _ => false,
        },
{
    let position = audio_preflight::position_of(
        input,
        first,
        first_video_pts,
        setup.clock_domain,
        setup.sample_rate,
        setup.budget,
        setup.limits,
    )->Ok_0;
    audio_stays_with_its_video(
        input,
        first,
        first_video_pts,
        setup.clock_domain,
        setup.sample_rate,
        setup.budget,
        setup.limits,
        position,
    );
}

/// Blocks that a decoder has passed over are counted. Where it has come to its end there is
/// nothing to play; otherwise the largest page is decoded from where it stands.
pub proof fn decoding_goes_on_behind_what_was_passed_over(
    setup: PreflightModel,
    input: InputId,
    stage: OpeningModel,
    passed: crate::audio_opening::PassedBlocks,
)
    requires
        stage is Pass,
        setup.audio_telemetry.positioned_blocks + passed.skipped_blocks <= u64::MAX,
        setup.audio_telemetry.positioned_samples + passed.skipped_samples <= u64::MAX,
    ensures
        ({
            let (after, next) = audio_opening::opening_step(
                setup,
                input,
                stage,
                OpeningEvent::Passed(Ok(passed)),
            );
            &&& after.audio_telemetry.positioned_blocks == setup.audio_telemetry.positioned_blocks
                + passed.skipped_blocks
            &&& after.audio_telemetry.positioned_samples
                == setup.audio_telemetry.positioned_samples + passed.skipped_samples
            &&& after.sources == setup.sources
            &&& after.retained == setup.retained
            &&& passed.end_of_stream ==> (next matches Ok(
                OpeningModel::Clocks {
                    position,
                    first_video_pts,
                    window,
                    positioned_end,
                    next_sequence,
                },
            ) && position == stage->Pass_position && first_video_pts
                == stage->Pass_first_video_pts && window.blocks.len() == 0 && window.end_of_stream
                && positioned_end && next_sequence == passed.next_block)
            &&& !passed.end_of_stream ==> (next matches Ok(
                OpeningModel::Page {
                    position,
                    first_video_pts,
                    next_sequence,
                    max_blocks,
                    max_samples,
                    page_bytes,
                },
            ) && position == stage->Pass_position && first_video_pts
                == stage->Pass_first_video_pts && next_sequence == passed.next_block && max_blocks
                == setup.limits.max_blocks_per_page && max_samples
                == setup.limits.max_samples_per_page && page_bytes == stage->Pass_page_bytes)
        }),
{
}

/// A page is used as it was decoded, where it holds no more blocks than asked for, and fewer only
/// at the end of its source.
pub proof fn pages_are_used_as_decoded(
    setup: PreflightModel,
    input: InputId,
    stage: OpeningModel,
    event: OpeningEvent,
    blocks: Seq<AudioBlock>,
    end_of_stream: bool,
)
    requires
        stage is Page,
        event matches OpeningEvent::Decoded(Ok(window)) && window.blocks@ == blocks
            && window.end_of_stream == end_of_stream,
    ensures
        ({
            let (after, next) = audio_opening::opening_step(setup, input, stage, event);
            let asked = stage->Page_max_blocks;
            let in_order = blocks.len() <= asked && (end_of_stream || blocks.len() == asked
                && blocks.len() > 0);
            &&& after == setup
            &&& in_order ==> (next matches Ok(
                OpeningModel::Clocks {
                    position,
                    first_video_pts,
                    window,
                    positioned_end,
                    next_sequence,
                },
            ) && position == stage->Page_position && first_video_pts
                == stage->Page_first_video_pts && window.blocks == blocks && window.end_of_stream
                == end_of_stream && !positioned_end && next_sequence == stage->Page_next_sequence)
            &&& !in_order ==> next == Err::<OpeningModel, NativeMasterError>(
                NativeMasterError::DecodeContract { input },
            )
        }),
{
}

/// The synchronizer is made for the first block that is played, and nothing that was decoded is
/// lost on the way to it.
pub proof fn synchronizers_are_made_for_what_is_played(
    setup: PreflightModel,
    input: InputId,
    position: AudioPosition,
    first_video_pts: i64,
    window: WindowModel,
    positioned_end: bool,
    next_sequence: u64,
    mapped: bool,
    limited: Result<(), OutsideFailure>,
    next: OpeningModel,
)
    requires
        setup.wf(),
        position.source_rate > 0,
        audio_opening::opening_step(
            setup,
            input,
            OpeningModel::Clocks {
                position,
                first_video_pts,
                window,
                positioned_end,
                next_sequence,
            },
            OpeningEvent::ClocksMapped { mapped, limited },
        ) == (setup, Ok::<OpeningModel, NativeMasterError>(next)),
    ensures
        next matches OpeningModel::Blocks {
            position: kept_position,
            plan,
            window: kept_window,
            positioned_end: kept_end,
            next_sequence: kept_sequence,
        } && {
            &&& kept_position == position
            &&& kept_window == window
            &&& kept_end == positioned_end
            &&& kept_sequence == next_sequence
            &&& plan.source_anchor_ns - plan.master_anchor_ns == first_video_pts
            &&& window.blocks.len() > 0 ==> plan.source_origin.timestamp_ns
                == window.blocks[0].timing.presentation_ns
            &&& window.blocks.len() == 0 ==> plan.source_origin.sample_index
                == position.target_source_sample
        },
{
    let plan = audio_preflight::synchronizer_plan(
        input,
        position,
        first_video_pts,
        window.first(),
        setup.sample_rate,
        setup.budget,
        setup.limits,
        mapped,
        limited,
    )->Ok_0;
    synchronizers_follow_the_video(
        input,
        position,
        first_video_pts,
        window.first(),
        setup.sample_rate,
        setup.budget,
        setup.limits,
        mapped,
        limited,
        plan,
    );
}

/// A source whose synchronizer took its blocks is listed, and has ended where its window or its
/// decoder has. Its decoder is kept while there is more to decode, or where the source may be
/// played anew.
pub proof fn decoders_are_kept_while_there_is_more(
    setup: PreflightModel,
    input: InputId,
    position: AudioPosition,
    plan: SynchronizerPlan,
    window: WindowModel,
    positioned_end: bool,
    next_sequence: u64,
    pushed: Result<NativeAudioCharge, OutsideFailure>,
    after: PreflightModel,
    next: OpeningModel,
)
    requires
        setup.wf(),
        audio_opening::opening_step(
            setup,
            input,
            OpeningModel::Blocks { position, plan, window, positioned_end, next_sequence },
            OpeningEvent::BlocksPushed(pushed),
        ) == (after, Ok::<OpeningModel, NativeMasterError>(next)),
    ensures
        ordered::collected(after.sources).contains_key(input),
        ordered::collected(after.sources)[input].end_of_stream <==> (window.end_of_stream
            || positioned_end),
        pushed matches Ok(buffered) && plays_from(
            ordered::collected(after.sources)[input],
            setup,
            position,
            plan,
            window.blocks,
            next_sequence,
            buffered,
        ),
        next matches OpeningModel::Mixer { source_layout, keeps_decoder } && source_layout == Some(
            position.layout,
        ) && (keeps_decoder <==> (setup.retain_eos_decoders || !window.end_of_stream)),
{
    sources_stand_behind_their_first_page(
        setup,
        input,
        position,
        plan,
        window.blocks,
        window.end_of_stream || positioned_end,
        next_sequence,
        pushed,
        after,
    );
}

/// An opening is over once the mixer has taken the input, and whatever fails on the way ends it
/// with what failed.
pub proof fn openings_end_with_the_mixer(
    setup: PreflightModel,
    input: InputId,
    stage: OpeningModel,
    event: OpeningEvent,
)
    requires
        audio_opening::answers_opening(stage, event),
    ensures
        ({
            let (_, next) = audio_opening::opening_step(setup, input, stage, event);
            &&& (next matches Ok(OpeningModel::Over { .. })) <==> (stage is Mixer
                && event matches OpeningEvent::InputAdded(Ok(_)))
            &&& next matches Ok(OpeningModel::Over { keeps_decoder }) ==> keeps_decoder
                == stage->Mixer_keeps_decoder
            &&& (event matches OpeningEvent::InputAdded(Err(error)) ==> next == Err::<
                OpeningModel,
                NativeMasterError,
            >(error))
            &&& (event matches OpeningEvent::Probed(Err(error)) ==> next == Err::<
                OpeningModel,
                NativeMasterError,
            >(NativeMasterError::Ffmpeg { input, error }))
            &&& (event matches OpeningEvent::AudioOpened(Err(error)) ==> next == Err::<
                OpeningModel,
                NativeMasterError,
            >(NativeMasterError::Ffmpeg { input, error }))
            &&& (event matches OpeningEvent::Decoded(Err(error)) ==> next == Err::<
                OpeningModel,
                NativeMasterError,
            >(NativeMasterError::Ffmpeg { input, error }))
            &&& (event matches OpeningEvent::FrameDecoded(Err(error)) ==> next == Err::<
                OpeningModel,
                NativeMasterError,
            >(NativeMasterError::Ffmpeg { input, error }))
            &&& (event matches OpeningEvent::Passed(Err(error)) ==> next == Err::<
                OpeningModel,
                NativeMasterError,
            >(NativeMasterError::Ffmpeg { input, error }))
            &&& (event matches OpeningEvent::BlocksPushed(Err(error)) ==> next == Err::<
                OpeningModel,
                NativeMasterError,
            >(NativeMasterError::Synchronizer(error)))
        }),
{
}

/// A synchronizer is planned wherever the clocks are mapped, its limits are accepted, and the
/// instants from which the source and the Master are counted can be told.
pub proof fn synchronizers_are_planned_where_clocks_are_mapped(
    input: InputId,
    position: AudioPosition,
    first_video_pts: i64,
    first: Option<AudioBlock>,
    sample_rate: u32,
    budget: AudioBudget,
    limits: NativeAudioLimits,
    sample: int,
)
    requires
        audio_timing::boundary_fits(
            later_of(
                budget.master_start_sample as int,
                position.audio_start_master_sample as int,
            ),
            sample_rate,
        ),
        match first {
            Some(block) => sample == audio_timing::sample_at(
                position.origin,
                block.timing.presentation_ns as int,
                position.source_rate,
            ) && 0 <= sample <= u64::MAX,
            None => audio_timing::boundary_fits(
                position.origin.sample_index as int,
                position.source_rate,
            ) && audio_timing::boundary_fits(
                position.target_source_sample as int,
                position.source_rate,
            ) && i64::MIN <= audio_timing::time_of(
                position.origin,
                position.target_source_sample as int,
                position.source_rate,
            ) <= i64::MAX,
        },
    ensures
        audio_preflight::synchronizer_plan(
            input,
            position,
            first_video_pts,
            first,
            sample_rate,
            budget,
            limits,
            true,
            Ok(()),
        ) is Ok,
        audio_preflight::synchronizer_plan(
            input,
            position,
            first_video_pts,
            first,
            sample_rate,
            budget,
            limits,
            false,
            Ok(()),
        ) is Err,
{
}

/// What is known of the Master is found wherever its limits can be kept, rendering leaves every
/// source a sample and its bytes, and its next frame can be counted.
pub proof fn budgets_are_found_where_there_is_room(
    sample_rate: u32,
    channels: usize,
    frame_rate: FrameRate,
    source_count: usize,
    expected_next_frame: u64,
    limits: NativeAudioLimits,
    max_mapping_channels: usize,
    output: int,
)
    requires
        frame_rate.wf(),
        are_usable(limits, channels),
        (output - 1) * frame_rate.numerator < sample_rate * frame_rate.denominator <= output
            * frame_rate.numerator,
        output <= usize::MAX,
        sharers(source_count) < usize::MAX,
        sharers(source_count) * max_mapping_channels + channels <= usize::MAX,
        output * (sharers(source_count) + 1) + sharers(source_count)
            <= limits.max_retained_samples,
        output * (sharers(source_count) * max_mapping_channels + channels) * 4 + sharers(
            source_count,
        ) <= limits.max_retained_bytes,
        audio_timing::frame_start(expected_next_frame + 1, sample_rate, frame_rate) <= u64::MAX,
        audio_timing::boundary_fits(
            audio_timing::frame_start(expected_next_frame as int, sample_rate, frame_rate),
            sample_rate,
        ),
    ensures
        audio_preflight::budget_of(
            sample_rate,
            channels,
            frame_rate,
            source_count,
            expected_next_frame,
            limits,
            max_mapping_channels,
        ) is Ok,
{
    let whole = sample_rate * frame_rate.denominator;
    let rate = frame_rate.numerator as int;
    let found = audio_preflight::frame_samples(sample_rate, frame_rate);
    assert((found - 1) * rate < whole <= found * rate) by (nonlinear_arith)
        requires
            rate > 0,
            found == (whole + rate - 1) / rate,
    ;
    assert(found == output) by (nonlinear_arith)
        requires
            rate > 0,
            (found - 1) * rate < whole <= found * rate,
            (output - 1) * rate < whole <= output * rate,
    ;
    let count = sharers(source_count);
    let samples = limits.max_retained_samples - output * (count + 1);
    let bytes = limits.max_retained_bytes - output * (count * max_mapping_channels + channels) * 4;
    assert(samples / count >= 1) by (nonlinear_arith)
        requires
            count > 0,
            samples >= count,
    ;
    assert(bytes / count >= 1) by (nonlinear_arith)
        requires
            count > 0,
            bytes >= count,
    ;
}

/// A project of which clips are heard shares what may be held between the program and its clips;
/// one of which none is heard leaves all of it to the program.
pub proof fn projects_share_only_with_clips_that_are_heard(
    project: NativeProjectPlan,
    resolved: Seq<InputId>,
    has_audio: Seq<Result<bool, NativeMasterError>>,
    limits: NativeAudioLimits,
)
    ensures
        audio_project::project_audio(project, resolved, has_audio, limits) matches Ok(plan) ==> {
            &&& plan.heard.len() == 0 ==> plan.ordinary_limits == limits && plan.stinger_limits
                == limits
            &&& plan.heard.len() > 0 ==> {
                &&& plan.ordinary_limits.max_retained_blocks
                    + plan.stinger_limits.max_retained_blocks == limits.max_retained_blocks
                &&& plan.ordinary_limits.max_retained_samples
                    + plan.stinger_limits.max_retained_samples == limits.max_retained_samples
                &&& plan.ordinary_limits.max_retained_bytes
                    + plan.stinger_limits.max_retained_bytes == limits.max_retained_bytes
                &&& plan.ordinary_limits.max_retained_blocks == limits.max_retained_blocks / 2
                &&& plan.ordinary_limits.max_retained_samples == limits.max_retained_samples / 2
                &&& plan.ordinary_limits.max_retained_bytes == limits.max_retained_bytes / 2
            }
            &&& project.audio_routes.entries@.len() <= MAX_NATIVE_AUDIO_STRIPS
        },
{
}

/// The lane of a clip is heard through the program and collects nothing by itself; it is as it
/// was set up otherwise.
pub proof fn clips_collect_nothing_by_themselves(lane: LaneModel)
    ensures
        ({
            let clip = audio_project::clip_lane_of(lane);
            &&& !clip.collect_output
            &&& clip.sources == lane.sources
            &&& clip.limits == lane.limits
            &&& clip.expected_next_frame == lane.expected_next_frame
            &&& clip.sample_rate == lane.sample_rate
            &&& clip.audio_telemetry == lane.audio_telemetry
        }),
{
}

/// A source is taken in wherever its synchronizer took its first page, the blocks of the page
/// follow one another from where the plan begins, and everything can be held. Without a block
/// there is nothing that could be refused.
pub proof fn first_pages_that_can_be_held_are_taken(
    setup: PreflightModel,
    input: InputId,
    position: AudioPosition,
    plan: SynchronizerPlan,
    blocks: Seq<AudioBlock>,
    end_of_stream: bool,
    next_sequence: u64,
    buffered: NativeAudioCharge,
    page: ValidatedAudioPage,
)
    requires
        setup.retained.blocks <= setup.limits.max_retained_blocks,
        setup.retained.samples <= setup.limits.max_retained_samples,
        setup.retained.bytes <= setup.limits.max_retained_bytes,
        blocks.len() > 0 ==> audio_source::checked_blocks(
            AudioPageRules {
                input,
                sample_rate: blocks[0].sample_rate,
                layout: blocks[0].layout,
                timeline_origin: position.origin,
                clock_domain: setup.clock_domain,
            },
            ValidatedAudioPage {
                next_sample: plan.source_origin.sample_index,
                next_sequence: blocks[0].timing.sequence,
                charge: NativeAudioCharge { blocks: 0, samples: 0, bytes: 0 },
            },
            blocks,
        ) == Ok::<ValidatedAudioPage, NativeMasterError>(page),
        blocks.len() > 0 ==> {
            &&& page.charge.blocks <= setup.limits.max_blocks_per_page
            &&& page.charge.samples <= setup.limits.max_samples_per_page
            &&& page.charge.blocks + setup.retained.blocks <= setup.limits.max_retained_blocks
            &&& page.charge.samples + setup.retained.samples <= setup.limits.max_retained_samples
            &&& page.charge.bytes + setup.retained.bytes <= setup.limits.max_retained_bytes
        },
    ensures
        audio_setup::admitted(
            setup,
            input,
            position,
            plan,
            blocks,
            end_of_stream,
            next_sequence,
            Ok(buffered),
        ) is Ok,
{
}

/// An opening goes on wherever what it waited for is in order: once the place of the audio is
/// found, once a synchronizer can be planned, and once the source can be taken in.
pub proof fn openings_go_on_where_all_is_in_order(
    setup: PreflightModel,
    input: InputId,
    stage: OpeningModel,
    event: OpeningEvent,
)
    ensures
        ({
            let next = audio_opening::opening_step(setup, input, stage, event).1;
            &&& (stage matches OpeningModel::FirstFrame { first, .. }
                && event matches OpeningEvent::FrameDecoded(Ok(video))) ==> (next is Ok
                <==> audio_preflight::position_of(
                input,
                stage->FirstFrame_first,
                event->FrameDecoded_0->Ok_0,
                setup.clock_domain,
                setup.sample_rate,
                setup.budget,
                setup.limits,
            ) is Ok)
            &&& (stage is Clocks && event is ClocksMapped) ==> (next is Ok
                <==> audio_preflight::synchronizer_plan(
                input,
                stage->Clocks_position,
                stage->Clocks_first_video_pts,
                stage->Clocks_window.first(),
                setup.sample_rate,
                setup.budget,
                setup.limits,
                event->mapped,
                event->limited,
            ) is Ok)
            &&& (stage is Blocks && event is BlocksPushed) ==> (next is Ok
                <==> audio_setup::admitted(
                setup,
                input,
                stage->Blocks_position,
                stage->plan,
                stage->Blocks_window.blocks,
                stage->Blocks_window.end_of_stream || stage->Blocks_positioned_end,
                stage->Blocks_next_sequence,
                event->BlocksPushed_0,
            ) is Ok)
        }),
{
}

} // verus!
