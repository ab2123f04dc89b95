//! Rendering a serviced frame of a lane.
use vstd::prelude::*;

use crate::audio_limits;
use crate::audio_limits::{NativeAudioCharge, NativeAudioTelemetry, NativeMasterError};
use crate::audio_master;
use crate::audio_master::{LaneModel, NativeMasterLane};
use crate::audio_mix;
use crate::audio_mix::{
    native_audio_mix_plan, native_project_audio_mix_plan, AudioMixVerdict, NativeAudioMixPlan,
};
use crate::audio_service;
use crate::audio_source::{NativeAudioSource, Synchronizer};
use crate::audio_timing;
use crate::audio_timing::output_audio_timing;
use crate::model::{FrameResult, InputId, OutsideFailure};
use crate::project_plan::NativeProjectPlan;
use crate::render;
use crate::source::MediaTiming;

verus! {

/// A frame that is to be mixed.
#[derive(Clone, Copy, Debug)]
pub struct AudioFramePlan {
    pub frame: u64,
    pub start_sample: u64,
    pub end_sample: u64,
    pub samples: usize,
    pub timing: MediaTiming,
    pub strip_plan: NativeAudioMixPlan,
}

/// The part of a frame that a source fills, and how far into the frame it begins.
#[derive(Clone, Copy, Debug, PartialEq, Eq, Structural)]
pub struct SourceRender {
    pub output_offset: usize,
    pub samples: usize,
    pub timing: MediaTiming,
}

/// What a frame mixes, with its project or without one.
pub open spec fn strip_plan_of(
    project: Option<&NativeProjectPlan>,
    frame: FrameResult,
    verdict: AudioMixVerdict,
) -> Result<NativeAudioMixPlan, NativeMasterError> {
    match project {
        Some(project) => audio_mix::project_mix(*project, frame.program, verdict),
        None => audio_mix::program_mix(frame.program, verdict.gains),
    }
}

/// How a frame is to be mixed, if it is the next and has been serviced.
pub open spec fn frame_plan(
    lane: LaneModel,
    frame: FrameResult,
    project: Option<&NativeProjectPlan>,
    sink_rejects: bool,
    verdict: AudioMixVerdict,
) -> Result<AudioFramePlan, NativeMasterError> {
    if lane.failed {
        Err(NativeMasterError::Failed)
    } else if frame.frame != lane.expected_next_frame {
        Err(
            NativeMasterError::UnexpectedFrame {
                expected: lane.expected_next_frame,
                actual: frame.frame,
            },
        )
    } else {
        match lane.ready_frame {
            None => Err(NativeMasterError::FrameNotReady(frame.frame)),
            Some(ready) => if ready.frame != frame.frame {
                Err(NativeMasterError::FrameNotReady(frame.frame))
            } else if !audio_timing::block_is_timed(
                ready.start_sample,
                ready.end_sample,
                lane.sample_rate,
            ) || ready.end_sample - ready.start_sample > usize::MAX {
                Err(NativeMasterError::BoundsExceeded)
            } else if sink_rejects {
                Err(NativeMasterError::SinkRejected)
            } else {
                match strip_plan_of(project, frame, verdict) {
                    Err(error) => Err(error),
                    Ok(strip_plan) => Ok(
                        AudioFramePlan {
                            frame: frame.frame,
                            start_sample: ready.start_sample,
                            end_sample: ready.end_sample,
                            samples: (ready.end_sample - ready.start_sample) as usize,
                            timing: audio_timing::block_timing(
                                frame.frame,
                                ready.start_sample,
                                ready.end_sample,
                                lane.sample_rate,
                                lane.clock_domain,
                            ),
                            strip_plan,
                        },
                    ),
                }
            },
        }
    }
}

/// Whether a plan spans the samples it counts.
pub open spec fn plan_is_whole(plan: AudioFramePlan) -> bool {
    plan.start_sample <= plan.end_sample && plan.samples == plan.end_sample - plan.start_sample
}

/// The part of a frame that a source fills: from where its audio begins to the end of the
/// frame.
pub open spec fn part_of(
    lane: LaneModel,
    input: InputId,
    source: NativeAudioSource,
    plan: AudioFramePlan,
) -> Result<Option<SourceRender>, NativeMasterError> {
    let begin = if plan.start_sample < source.audio_start_master_sample {
        source.audio_start_master_sample
    } else {
        plan.start_sample
    };
    if source.explicit_silence {
        Ok(None)
    } else if source.synchronizer is None {
        Err(NativeMasterError::DecodeContract { input })
    } else if plan.end_sample <= source.audio_start_master_sample {
        Ok(None)
    } else if !audio_timing::block_is_timed(begin, plan.end_sample, lane.sample_rate) {
        Err(NativeMasterError::BoundsExceeded)
    } else {
        Ok(
            Some(
                SourceRender {
                    output_offset: (begin - plan.start_sample) as usize,
                    samples: (plan.end_sample - begin) as usize,
                    timing: audio_timing::block_timing(
                        plan.frame,
                        begin,
                        plan.end_sample,
                        lane.sample_rate,
                        lane.clock_domain,
                    ),
                },
            ),
        )
    }
}

/// What is rendered of a source is what was planned when its frame was serviced.
pub proof fn rendering_follows_the_service(
    lane: LaneModel,
    input: InputId,
    source: NativeAudioSource,
    plan: AudioFramePlan,
)
    requires
        plan_is_whole(plan),
        plan.frame == lane.expected_next_frame,
        source.explicit_silence || source.synchronizer is Some,
    ensures
        match (
            part_of(lane, input, source, plan),
            audio_service::interval_of(lane, source, plan.start_sample, plan.end_sample),
        ) {
            (Ok(Some(part)), Ok(Some(interval))) => {
                &&& part.samples == interval.samples
                &&& part.timing == interval.timing
                &&& part.output_offset + part.samples == plan.samples
            },
            (Ok(part), Ok(interval)) => part is None && interval is None,
            (Err(a), Err(b)) => a == b,
            _ => false,
        },
{
}

/// How many samples of a frame sources are silent because their audio has not begun.
pub open spec fn leading_silence(
    sources: Seq<(InputId, NativeAudioSource)>,
    start: u64,
    end: u64,
) -> u64
    decreases sources.len(),
{
    if sources.len() == 0 {
        0
    } else {
        let before = leading_silence(sources.drop_last(), start, end);
        let source = sources.last().1;
        let last = if end < source.audio_start_master_sample {
            end
        } else {
            source.audio_start_master_sample
        };
        if source.explicit_silence || last <= start {
            before
        } else {
            audio_limits::capped_u64(before, last - start)
        }
    }
}

/// The lane after a frame has been rendered.
pub open spec fn rendered(lane: LaneModel, plan: AudioFramePlan) -> (
    LaneModel,
    Result<(), NativeMasterError>,
) {
    let counted = lane.with_telemetry(
        NativeAudioTelemetry {
            leading_silence_samples: audio_limits::capped_u64(
                lane.audio_telemetry.leading_silence_samples,
                leading_silence(lane.sources, plan.start_sample, plan.end_sample) as int,
            ),
            ..lane.audio_telemetry
        },
    );
    if lane.expected_next_frame == u64::MAX {
        (counted, Err(NativeMasterError::BoundsExceeded))
    } else {
        (
            LaneModel {
                expected_next_frame: (lane.expected_next_frame + 1) as u64,
                ready_frame: None,
                ..counted
            },
            Ok(()),
        )
    }
}

/// A frame is rendered once: after it, the next is expected, and it must be serviced first.
pub proof fn a_frame_is_rendered_once(
    lane: LaneModel,
    plan: AudioFramePlan,
    frame: FrameResult,
    project: Option<&NativeProjectPlan>,
    sink_rejects: bool,
    verdict: AudioMixVerdict,
)
    requires
        !lane.failed,
        rendered(lane, plan).1 is Ok,
    ensures
        frame_plan(rendered(lane, plan).0, frame, project, sink_rejects, verdict) == (
        if frame.frame == lane.expected_next_frame + 1 {
            Err(NativeMasterError::FrameNotReady(frame.frame))
        } else {
            Err::<AudioFramePlan, NativeMasterError>(
                NativeMasterError::UnexpectedFrame {
                    expected: (lane.expected_next_frame + 1) as u64,
                    actual: frame.frame,
                },
            )
        }),
{
}

/// What the synchronizers say, from `i` on, of playing their parts.
pub open spec fn render_commits(
    lane: LaneModel,
    commits: Seq<(InputId, Result<(), OutsideFailure>)>,
    i: int,
) -> Result<(), NativeMasterError>
    decreases commits.len() - i,
{
    if i >= commits.len() {
        Ok(())
    } else {
        let (input, commit) = commits[i];
        match lane.source(input) {
            None => Err(NativeMasterError::DecodeContract { input }),
            Some(source) => if source.synchronizer is None {
                Err(NativeMasterError::DecodeContract { input })
            } else {
                match commit {
                    Err(error) => Err(NativeMasterError::Synchronizer(error)),
                    Ok(()) => render_commits(lane, commits, i + 1),
                }
            },
        }
    }
}

/// The lane after a synchronizer has played its part, given what it holds then.
pub open spec fn played(
    lane: LaneModel,
    input: InputId,
    committed: Result<NativeAudioCharge, OutsideFailure>,
) -> (LaneModel, Result<(), NativeMasterError>) {
    match lane.source(input) {
        None => (lane, Err(NativeMasterError::DecodeContract { input })),
        Some(source) => match source.synchronizer {
            None => (lane, Err(NativeMasterError::DecodeContract { input })),
            Some(synchronizer) => match committed {
                Err(error) => (lane, Err(NativeMasterError::Synchronizer(error))),
                Ok(buffered) => (
                    lane.with_source(
                        input,
                        NativeAudioSource {
                            synchronizer: Some(Synchronizer { buffered, ..synchronizer }),
                            ..source
                        },
                    ),
                    Ok(()),
                ),
            },
        },
    }
}

/// The source after a restart of its clip: it plays again from where it began, holds nothing,
/// and answers to earlier requests no longer count.
pub open spec fn restarted(source: NativeAudioSource) -> NativeAudioSource {
    NativeAudioSource {
        synchronizer: match source.synchronizer {
            None => None,
            Some(synchronizer) => Some(
                Synchronizer { buffered: NativeAudioCharge::zero(), ..synchronizer },
            ),
        },
        decode_generation: (source.decode_generation + 1) as u64,
        restart_decode: true,
        next_sample: source.restart_sample,
        next_sequence: source.restart_sequence,
        end_of_stream: false,
        ..source
    }
}

/// The sources after a restart from place `i` on; one that cannot be restarted again stops it.
pub open spec fn restarted_sources(sources: Seq<(InputId, NativeAudioSource)>, i: int) -> (
    Seq<(InputId, NativeAudioSource)>,
    Result<(), NativeMasterError>,
)
    decreases sources.len() - i,
{
    if !(0 <= i < sources.len()) {
        (sources, Ok(()))
    } else {
        let (input, source) = sources[i];
        if source.synchronizer is None {
            restarted_sources(sources, i + 1)
        } else if source.decode_generation == u64::MAX {
            (sources, Err(NativeMasterError::BoundsExceeded))
        } else {
            restarted_sources(sources.update(i, (input, restarted(source))), i + 1)
        }
    }
}

/// The lane after its clip has been restarted.
pub open spec fn restarted_lane(lane: LaneModel, cadence_origin_frame: u64) -> (
    LaneModel,
    Result<(), NativeMasterError>,
) {
    let (sources, outcome) = restarted_sources(lane.sources, 0);
    (
        LaneModel {
            expected_next_frame: 0,
            cadence_origin_frame,
            ready_frame: None,
            sources,
            ..lane
        },
        outcome,
    )
}

proof fn lemma_restarted(sources: Seq<(InputId, NativeAudioSource)>, i: int)
    requires
        0 <= i,
    ensures
        restarted_sources(sources, i).0.len() == sources.len(),
        restarted_sources(sources, i).1 is Ok ==> forall|k: int|
            #![trigger restarted_sources(sources, i).0[k]]
            0 <= k < sources.len() ==> restarted_sources(sources, i).0[k] == (if k >= i
                && sources[k].1.synchronizer is Some {
                (sources[k].0, restarted(sources[k].1))
            } else {
                sources[k]
            }),
    decreases sources.len() - i,
{
    if i < sources.len() {
        let (input, source) = sources[i];
        if source.synchronizer is None {
            lemma_restarted(sources, i + 1);
        } else if source.decode_generation < u64::MAX {
            let after = sources.update(i, (input, restarted(source)));
            lemma_restarted(after, i + 1);
            assert(restarted_sources(sources, i) == restarted_sources(after, i + 1));
        }
    }
}

/// After a restart every answer to a request from before it is stale, and every source stands
/// where its clip begins.
pub proof fn restarts_make_answers_stale(lane: LaneModel, cadence_origin_frame: u64, slot: int)
    requires
        0 <= slot < lane.sources.len(),
        lane.sources[slot].1.synchronizer is Some,
        lane.sources[slot].1.in_flight matches Some(reservation) ==> reservation.generation
            <= lane.sources[slot].1.decode_generation,
        restarted_lane(lane, cadence_origin_frame).1 is Ok,
    ensures
        ({
            let source = restarted_lane(lane, cadence_origin_frame).0.sources[slot].1;
            &&& source.in_flight == lane.sources[slot].1.in_flight
            &&& source.in_flight matches Some(reservation) ==> reservation.generation
                != source.decode_generation
            &&& source.next_sample == source.restart_sample
            &&& source.next_sequence == source.restart_sequence
            &&& !source.end_of_stream
            &&& source.restart_decode
        }),
{
    lemma_restarted(lane.sources, 0);
    lemma_generation_has_room(lane.sources, 0, slot);
    let after = restarted_sources(lane.sources, 0).0;
    assert(after[slot] == (lane.sources[slot].0, restarted(lane.sources[slot].1)));
}

/// After a restart no source of the lane holds anything, and nor do they all together.
pub proof fn a_restarted_lane_holds_nothing(lane: LaneModel, cadence_origin_frame: u64)
    requires
        restarted_lane(lane, cadence_origin_frame).1 is Ok,
    ensures
        ({
            let after = restarted_lane(lane, cadence_origin_frame).0;
            &&& after.sources.len() == lane.sources.len()
            &&& forall|slot: int|
                0 <= slot < after.sources.len() ==> (#[trigger] after.sources[slot]).1.held()
                    == NativeAudioCharge::zero()
            &&& audio_master::held_by(after.sources) == NativeAudioCharge::zero()
        }),
{
    lemma_restarted(lane.sources, 0);
    let after = restarted_sources(lane.sources, 0).0;
    assert forall|slot: int| 0 <= slot < after.len() implies (#[trigger] after[slot]).1.held()
        == NativeAudioCharge::zero() by {
        assert(after[slot] == restarted_sources(lane.sources, 0).0[slot]);
    }
    lemma_empty_sources_hold_nothing(after);
}

proof fn lemma_empty_sources_hold_nothing(sources: Seq<(InputId, NativeAudioSource)>)
    requires
        forall|slot: int|
            0 <= slot < sources.len() ==> (#[trigger] sources[slot]).1.held()
                == NativeAudioCharge::zero(),
    ensures
        audio_master::held_by(sources) == NativeAudioCharge::zero(),
    decreases sources.len(),
{
    if sources.len() > 0 {
        let rest = sources.drop_last();
        assert forall|slot: int| 0 <= slot < rest.len() implies (#[trigger] rest[slot]).1.held()
            == NativeAudioCharge::zero() by {
            assert(rest[slot] == sources[slot]);
        }
        lemma_empty_sources_hold_nothing(rest);
        assert(sources.last() == sources[sources.len() - 1]);
    }
}

proof fn lemma_generation_has_room(
    sources: Seq<(InputId, NativeAudioSource)>,
    i: int,
    slot: int,
)
    requires
        0 <= i <= slot < sources.len(),
        sources[slot].1.synchronizer is Some,
        restarted_sources(sources, i).1 is Ok,
    ensures
        sources[slot].1.decode_generation < u64::MAX,
    decreases sources.len() - i,
{
    let (input, source) = sources[i];
    if i < slot {
        if source.synchronizer is None {
            lemma_generation_has_room(sources, i + 1, slot);
        } else {
            lemma_generation_has_room(
                sources.update(i, (input, restarted(source))),
                i + 1,
                slot,
            );
        }
    }
}

impl NativeMasterLane {
    /// Begins to render a frame. `sink_rejects` tells that the sink is full and takes nothing
    /// more.
    pub fn begin_render(
        &self,
        frame: &FrameResult,
        project: Option<&NativeProjectPlan>,
        sink_rejects: bool,
        verdict: AudioMixVerdict,
    ) -> (plan: Result<AudioFramePlan, NativeMasterError>)
        requires
            self.wf(),
            project matches Some(project) ==> project.wf(),
            verdict.gains is Ok && render::preview_of(frame.program) is Some
                ==> audio_mix::ratios_fit(frame.program),
        ensures
            plan == frame_plan(self@, *frame, project, sink_rejects, verdict),
            plan matches Ok(plan) ==> plan_is_whole(plan) && plan.frame
                == self.expected_next_frame,
    {
        if self.failed {
            return Err(NativeMasterError::Failed);
        }
        let actual: u64 = frame.frame;
        if actual != self.expected_next_frame {
            return Err(
                NativeMasterError::UnexpectedFrame { expected: self.expected_next_frame, actual },
            );
        }
        let (ready_frame, start_sample, end_sample): (u64, u64, u64) = match self.ready_frame {
            None => {
                return Err(NativeMasterError::FrameNotReady(actual));
            },
            Some(ready) => (ready.frame, ready.start_sample, ready.end_sample),
        };
        if ready_frame != actual {
            return Err(NativeMasterError::FrameNotReady(actual));
        }
        let timing: MediaTiming = match output_audio_timing(
            actual,
            start_sample,
            end_sample,
            self.sample_rate,
            self.clock_domain,
        ) {
            Err(error) => {
                return Err(error);
            },
            Ok(timing) => timing,
        };
        if end_sample - start_sample > usize::MAX as u64 {
            return Err(NativeMasterError::BoundsExceeded);
        }
        let samples: usize = (end_sample - start_sample) as usize;
        if sink_rejects {
            return Err(NativeMasterError::SinkRejected);
        }
        let planned: Result<NativeAudioMixPlan, NativeMasterError> = match project {
            Some(project) => native_project_audio_mix_plan(project, frame.program, verdict),
            None => native_audio_mix_plan(frame.program, verdict.gains),
        };
        match planned {
            Err(error) => Err(error),
            Ok(strip_plan) => Ok(
                AudioFramePlan {
                    frame: actual,
                    start_sample,
                    end_sample,
                    samples,
                    timing,
                    strip_plan,
                },
            ),
        }
    }

    /// Finds the part of a frame that the source at `slot` fills.
    pub fn source_render(&self, slot: usize, plan: &AudioFramePlan) -> (part: Result<
        Option<SourceRender>,
        NativeMasterError,
    >)
        requires
            slot < self@.sources.len(),
            plan_is_whole(*plan),
        ensures
            part == part_of(
                self@,
                self@.sources[slot as int].0,
                self@.sources[slot as int].1,
                *plan,
            ),
    {
        let input: InputId = self.sources.entries[slot].0;
        let source: NativeAudioSource = self.sources.entries[slot].1;
        if source.explicit_silence {
            return Ok(None);
        }
        if source.synchronizer.is_none() {
            return Err(NativeMasterError::DecodeContract { input });
        }
        if plan.end_sample <= source.audio_start_master_sample {
            return Ok(None);
        }
        let render_start: u64 = if plan.start_sample < source.audio_start_master_sample {
            source.audio_start_master_sample
        } else {
            plan.start_sample
        };
        match output_audio_timing(
            plan.frame,
            render_start,
            plan.end_sample,
            self.sample_rate,
            self.clock_domain,
        ) {
            Err(error) => Err(error),
            Ok(timing) => Ok(
                Some(
                    SourceRender {
                        output_offset: (render_start - plan.start_sample) as usize,
                        samples: (plan.end_sample - render_start) as usize,
                        timing,
                    },
                ),
            ),
        }
    }

    /// Finds out whether all synchronizers let their parts be played. The lane does not change:
    /// where one does not, no cursor has moved.
    pub fn preflight_render_commits(&self, commits: &Vec<(InputId, Result<(), OutsideFailure>)>) -> (checked:
        Result<(), NativeMasterError>)
        requires
            self.wf(),
        ensures
            checked == render_commits(self@, commits@, 0),
    {
        let mut i: usize = 0;
        while i < commits.len()
            invariant
                self.wf(),
                i <= commits@.len(),
                render_commits(self@, commits@, 0) == render_commits(self@, commits@, i as int),
            decreases commits@.len() - i,
        {
            let input: InputId = commits[i].0;
            let source: NativeAudioSource = match self.sources.position(input) {
                None => {
                    return Err(NativeMasterError::DecodeContract { input });
                },
                Some(slot) => self.sources.entries[slot].1,
            };
            if source.synchronizer.is_none() {
                return Err(NativeMasterError::DecodeContract { input });
            }
            match commits[i].1 {
                Err(error) => {
                    return Err(NativeMasterError::Synchronizer(error));
                },
                Ok(()) => {},
            }
            i = i + 1;
        }
        Ok(())
    }

    /// Takes note that a synchronizer has played its part. `committed` tells what it holds
    /// then.
    pub fn commit_render(
        &mut self,
        input: InputId,
        committed: Result<NativeAudioCharge, OutsideFailure>,
    ) -> (outcome: Result<(), NativeMasterError>)
        requires
            old(self).wf(),
        ensures
            final(self).wf(),
            (final(self)@, outcome) == played(old(self)@, input, committed),
    {
        let known: bool = match self.sources.position(input) {
            None => false,
            Some(slot) => self.sources.entries[slot].1.synchronizer.is_some(),
        };
        if !known {
            return Err(NativeMasterError::DecodeContract { input });
        }
        match committed {
            Err(error) => Err(NativeMasterError::Synchronizer(error)),
            Ok(buffered) => {
                let _ = self.observe_synchronizer(input, buffered);
                Ok(())
            },
        }
    }

    /// Counts how many samples of a frame sources are silent because their audio has not
    /// begun.
    pub fn leading_silence_samples(&self, start_sample: u64, end_sample: u64) -> (samples: u64)
        ensures
            samples == leading_silence(self@.sources, start_sample, end_sample),
    {
        let ghost sources = self@.sources;
        let mut total: u64 = 0;
        let mut i: usize = 0;
        assert(sources.take(0) =~= Seq::<(InputId, NativeAudioSource)>::empty());
        while i < self.sources.entries.len()
            invariant
                i <= sources.len(),
                sources == self.sources.entries@,
                total == leading_silence(sources.take(i as int), start_sample, end_sample),
            decreases sources.len() - i,
        {
            assert(sources.take(i + 1).drop_last() =~= sources.take(i as int));
            assert(sources.take(i + 1).last() == sources[i as int]);
            let source: NativeAudioSource = self.sources.entries[i].1;
            if !source.explicit_silence {
                let last: u64 = if end_sample < source.audio_start_master_sample {
                    end_sample
                } else {
                    source.audio_start_master_sample
                };
                if last > start_sample {
                    total = total.saturating_add(last - start_sample);
                }
            }
            i = i + 1;
        }
        assert(sources.take(i as int) =~= sources);
        total
    }

    /// Ends the render of a frame: counts the silence before audio begins and moves the cursor
    /// on.
    pub fn finish_render(&mut self, plan: &AudioFramePlan) -> (finished: Result<
        (),
        NativeMasterError,
    >)
        requires
            old(self).wf(),
        ensures
            final(self).wf(),
            (final(self)@, finished) == rendered(old(self)@, *plan),
    {
        let leading: u64 = self.leading_silence_samples(plan.start_sample, plan.end_sample);
        self.audio_telemetry.leading_silence_samples = self.audio_telemetry.leading_silence_samples.saturating_add(
        leading);
        match self.expected_next_frame.checked_add(1) {
            None => Err(NativeMasterError::BoundsExceeded),
            Some(next) => {
                self.expected_next_frame = next;
                self.ready_frame = None;
                Ok(())
            },
        }
    }

    /// Restarts the clip of the lane at a frame of the program. No source holds anything
    /// afterwards; the caller resets the mixers and every synchronizer to where it began.
    pub fn restart_clip_at(&mut self, cadence_origin_frame: u64) -> (done: Result<
        (),
        NativeMasterError,
    >)
        requires
            old(self).wf(),
        ensures
            final(self).wf(),
            (final(self)@, done) == restarted_lane(old(self)@, cadence_origin_frame),
    {
        self.expected_next_frame = 0;
        self.cadence_origin_frame = cadence_origin_frame;
        self.ready_frame = None;
        let ghost whole = restarted_sources(old(self)@.sources, 0);
        let mut i: usize = 0;
        while i < self.sources.entries.len()
            invariant
                self.wf(),
                i <= self@.sources.len(),
                whole == restarted_sources(old(self)@.sources, 0),
                whole == restarted_sources(self@.sources, i as int),
                self@ == (LaneModel {
                    expected_next_frame: 0,
                    cadence_origin_frame,
                    ready_frame: None,
                    sources: self@.sources,
                    ..old(self)@
                }),
            decreases self@.sources.len() - i,
        {
            let input: InputId = self.sources.entries[i].0;
            let source: NativeAudioSource = self.sources.entries[i].1;
            if let Some(synchronizer) = source.synchronizer {
                let generation: u64 = match source.decode_generation.checked_add(1) {
                    None => {
                        return Err(NativeMasterError::BoundsExceeded);
                    },
                    Some(generation) => generation,
                };
                let ghost before = self@;
                self.sources.entries.set(
                    i,
                    (
                        input,
                        NativeAudioSource {
                            synchronizer: Some(
                                Synchronizer {
                                    buffered: NativeAudioCharge::default(),
                                    ..synchronizer
                                },
                            ),
                            decode_generation: generation,
                            restart_decode: true,
                            next_sample: source.restart_sample,
                            next_sequence: source.restart_sequence,
                            end_of_stream: false,
                            ..source
                        },
                    ),
                );
                proof {
                    assert(self@.sources == before.sources.update(
                        i as int,
                        (input, restarted(source)),
                    ));
                    assert(self@.inputs() =~= before.inputs());
                    assert(before.sources[i as int].1.wf());
                }
            }
            i = i + 1;
        }
        Ok(())
    }
}

} // verus!
