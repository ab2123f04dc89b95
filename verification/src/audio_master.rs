//! One set of audio sources that is kept filled and played by one frame cursor.
use vstd::prelude::*;

use crate::audio_limits;
use crate::audio_limits::{
    observe_retained_peak, validate_page_bounds, validate_retained_bounds, NativeAudioCharge,
    NativeAudioLimits, NativeAudioTelemetry, NativeMasterError, ValidatedAudioPage,
};
use crate::audio_source;
use crate::audio_source::{
    commit_audio_page, validate_audio_page, validate_audio_window_contract, ChannelLayout,
    DecodedAudioWindow, NativeAudioReservation, NativeAudioSource, Synchronizer,
};
use crate::audio_timing;
use crate::audio_timing::absolute_frame_sample_span;
use crate::model::{ClockDomainId, FrameRate, InputId, OutsideFailure};
use crate::ordered;
use crate::ordered::OrderedMap;

verus! {

/// A frame whose samples are all at hand.
#[derive(Clone, Copy, Debug, PartialEq, Eq, Structural)]
pub struct ReadyFrame {
    pub frame: u64,
    pub start_sample: u64,
    pub end_sample: u64,
}

/// Audio sources that are played by one frame cursor.
pub struct NativeMasterLane {
    pub sample_rate: u32,
    pub layout: ChannelLayout,
    pub frame_rate: FrameRate,
    pub clock_domain: ClockDomainId,
    pub expected_next_frame: u64,
    pub cadence_origin_frame: u64,
    pub ready_frame: Option<ReadyFrame>,
    pub sources: OrderedMap<InputId, NativeAudioSource>,
    pub limits: NativeAudioLimits,
    pub audio_telemetry: NativeAudioTelemetry,
    pub collect_output: bool,
    pub failed: bool,
}

/// What a lane holds.
#[verifier::ext_equal]
pub struct LaneModel {
    pub sample_rate: u32,
    pub layout: ChannelLayout,
    pub frame_rate: FrameRate,
    pub clock_domain: ClockDomainId,
    pub expected_next_frame: u64,
    pub cadence_origin_frame: u64,
    pub ready_frame: Option<ReadyFrame>,
    pub sources: Seq<(InputId, NativeAudioSource)>,
    pub limits: NativeAudioLimits,
    pub audio_telemetry: NativeAudioTelemetry,
    pub collect_output: bool,
    pub failed: bool,
}

impl View for NativeMasterLane {
    type V = LaneModel;

    open spec fn view(&self) -> LaneModel {
        LaneModel {
            sample_rate: self.sample_rate,
            layout: self.layout,
            frame_rate: self.frame_rate,
            clock_domain: self.clock_domain,
            expected_next_frame: self.expected_next_frame,
            cadence_origin_frame: self.cadence_origin_frame,
            ready_frame: self.ready_frame,
            sources: self.sources.entries@,
            limits: self.limits,
            audio_telemetry: self.audio_telemetry,
            collect_output: self.collect_output,
            failed: self.failed,
        }
    }
}

impl LaneModel {
    /// The inputs in ascending order.
    pub open spec fn inputs(self) -> Seq<InputId> {
        ordered::entry_keys(self.sources)
    }

    /// Whether the sources stand in order and every rate can be divided by.
    pub open spec fn wf(self) -> bool {
        &&& self.sample_rate > 0
        &&& self.frame_rate.wf()
        &&& self.limits.wf()
        &&& ordered::ascending(self.inputs())
        &&& forall|i: int| 0 <= i < self.sources.len() ==> (#[trigger] self.sources[i]).1.wf()
        &&& self.ready_frame matches Some(ready) ==> ready.start_sample <= ready.end_sample
    }

    /// The source of an input.
    pub open spec fn source(self, input: InputId) -> Option<NativeAudioSource> {
        if ordered::collected(self.sources).contains_key(input) {
            Some(ordered::collected(self.sources)[input])
        } else {
            None
        }
    }

    /// The lane with another source in place of that of `input`.
    pub open spec fn with_source(self, input: InputId, source: NativeAudioSource) -> Self {
        LaneModel {
            sources: self.sources.update(
                ordered::lower_bound(self.inputs(), input),
                (input, source),
            ),
            ..self
        }
    }

    /// The lane with other counts.
    pub open spec fn with_telemetry(self, audio_telemetry: NativeAudioTelemetry) -> Self {
        LaneModel { audio_telemetry, ..self }
    }
}

/// Putting a source in place of one that is there keeps the lane in order.
pub proof fn lemma_with_source(lane: LaneModel, input: InputId, source: NativeAudioSource)
    requires
        lane.wf(),
        lane.source(input) is Some,
        source.wf(),
    ensures
        ({
            let slot = ordered::lower_bound(lane.inputs(), input);
            &&& 0 <= slot < lane.sources.len()
            &&& lane.sources[slot] == (input, lane.source(input)->Some_0)
        }),
        lane.source(input)->Some_0.wf(),
        lane.with_source(input, source).wf(),
        lane.with_source(input, source).inputs() == lane.inputs(),
        lane.with_source(input, source).source(input) == Some(source),
        forall|other: InputId|
            other != input ==> #[trigger] lane.with_source(input, source).source(other)
                == lane.source(other),
{
    let slot = ordered::lower_bound(lane.inputs(), input);
    ordered::lemma_lower_bound(lane.inputs(), input);
    ordered::lemma_contains_at_lower_bound(lane.inputs(), input);
    ordered::lemma_entries_match_map(lane.sources);
    assert(lane.inputs()[slot] == lane.sources[slot].0);
    let after = lane.with_source(input, source);
    assert(after.inputs() =~= lane.inputs());
    ordered::lemma_entries_match_map(after.sources);
    assert forall|i: int| 0 <= i < after.sources.len() implies (
    #[trigger] after.sources[i]).1.wf() by {
        assert(i != slot ==> after.sources[i] == lane.sources[i]);
    }
    assert(after.sources[slot] == (input, source));
    assert forall|other: InputId| other != input implies #[trigger] after.source(other)
        == lane.source(other) by {
        if lane.inputs().contains(other) {
            let i = choose|i: int| 0 <= i < lane.inputs().len() && lane.inputs()[i] == other;
            assert(lane.sources[i].0 == other);
            assert(after.sources[i] == lane.sources[i]);
        } else {
            assert(!after.inputs().contains(other));
        }
    }
}

/// What sources hold together, or the largest charge where it cannot be counted.
pub open spec fn held_by(sources: Seq<(InputId, NativeAudioSource)>) -> NativeAudioCharge
    decreases sources.len(),
{
    if sources.len() == 0 {
        NativeAudioCharge::zero()
    } else {
        match held_by(sources.drop_last()).plus(sources.last().1.held()) {
            Some(total) => total,
            None => NativeAudioCharge {
                blocks: usize::MAX,
                samples: usize::MAX,
                bytes: usize::MAX,
            },
        }
    }
}

/// The samples of the next frame of a lane, counted from the begin of the clip.
pub open spec fn next_span(lane: LaneModel) -> Result<(u64, u64), NativeMasterError> {
    let origin = lane.cadence_origin_frame as int;
    let frame = origin + lane.expected_next_frame;
    let first = audio_timing::frame_start(origin, lane.sample_rate, lane.frame_rate);
    if frame > u64::MAX || audio_timing::frame_start(frame + 1, lane.sample_rate, lane.frame_rate)
        > u64::MAX {
        Err(NativeMasterError::BoundsExceeded)
    } else {
        Ok(
            (
                (audio_timing::frame_start(frame, lane.sample_rate, lane.frame_rate) - first) as u64,
                (audio_timing::frame_start(frame + 1, lane.sample_rate, lane.frame_rate)
                    - first) as u64,
            ),
        )
    }
}

/// Frames begin no earlier than the frames before them.
pub proof fn lemma_frames_do_not_descend(a: int, b: int, sample_rate: u32, frame_rate: FrameRate)
    requires
        0 <= a <= b,
        frame_rate.wf(),
    ensures
        0 <= audio_timing::frame_start(a, sample_rate, frame_rate) <= audio_timing::frame_start(
            b,
            sample_rate,
            frame_rate,
        ),
    decreases b - a,
{
    audio_timing::frame_spans_are_contiguous(a, sample_rate, frame_rate);
    if a < b {
        lemma_frames_do_not_descend(a + 1, b, sample_rate, frame_rate);
    } else {
        let x = a * (sample_rate * frame_rate.denominator);
        let d = frame_rate.numerator as int;
        assert(x >= 0) by (nonlinear_arith)
            requires
                a >= 0,
                x == a * (sample_rate * frame_rate.denominator),
        ;
        assert(x / d >= 0) by (nonlinear_arith)
            requires
                x >= 0,
                d > 0,
        ;
    }
}

/// The frames of a clip follow one another without a gap, and the first begins at zero.
pub proof fn clip_frames_are_contiguous(lane: LaneModel)
    requires
        lane.wf(),
    ensures
        next_span(lane) matches Ok((start, end)) ==> {
            &&& start <= end
            &&& lane.expected_next_frame == 0 ==> start == 0
            &&& lane.expected_next_frame < u64::MAX ==> (next_span(
                LaneModel {
                    expected_next_frame: (lane.expected_next_frame + 1) as u64,
                    ..lane
                },
            ) matches Ok((next, _)) ==> next == end)
        },
{
    let origin = lane.cadence_origin_frame as int;
    let frame = origin + lane.expected_next_frame;
    lemma_frames_do_not_descend(origin, frame, lane.sample_rate, lane.frame_rate);
    lemma_frames_do_not_descend(frame, frame + 1, lane.sample_rate, lane.frame_rate);
    lemma_frames_do_not_descend(frame + 1, frame + 2, lane.sample_rate, lane.frame_rate);
}

/// What a decoder answers to a request, and whether the synchronizer would take it.
#[derive(Debug)]
pub struct NativeAudioDecodeResult {
    pub input: InputId,
    pub reservation: NativeAudioReservation,
    pub positioned_blocks: u64,
    pub positioned_samples: u64,
    pub window: Result<DecodedAudioWindow, OutsideFailure>,
    /// What the synchronizer of the source says of the blocks before they are pushed.
    pub admitted: Result<(), OutsideFailure>,
}

/// Whether every block of an answer states its time in ticks that have a length.
pub open spec fn answer_is_timed(completed: NativeAudioDecodeResult) -> bool {
    completed.window matches Ok(window) ==> audio_source::blocks_are_timed(window.blocks@)
}

/// A page that may be pushed to its synchronizer.
#[derive(Clone, Copy, Debug, PartialEq, Eq, Structural)]
pub struct ValidatedCompletedAudioPage {
    pub input: InputId,
    pub reservation: NativeAudioReservation,
    pub page: ValidatedAudioPage,
    pub end_of_stream: bool,
}

/// The lane with the blocks counted that a decoder has passed over.
pub open spec fn with_positioned(lane: LaneModel, completed: NativeAudioDecodeResult) -> LaneModel {
    lane.with_telemetry(
        NativeAudioTelemetry {
            positioned_blocks: audio_limits::capped_u64(
                lane.audio_telemetry.positioned_blocks,
                completed.positioned_blocks as int,
            ),
            positioned_samples: audio_limits::capped_u64(
                lane.audio_telemetry.positioned_samples,
                completed.positioned_samples as int,
            ),
            ..lane.audio_telemetry
        },
    )
}

/// What an answer of the present generation comes to: the page that it brings and what the
/// lane would hold with it.
pub open spec fn page_of(
    lane: LaneModel,
    retained: NativeAudioCharge,
    source: NativeAudioSource,
    completed: NativeAudioDecodeResult,
) -> Result<(NativeAudioCharge, ValidatedCompletedAudioPage), NativeMasterError> {
    let input = completed.input;
    match completed.window {
        Err(error) => Err(NativeMasterError::Ffmpeg { input, error }),
        Ok(window) => if !audio_source::window_keeps_contract(
            window.blocks@.len(),
            window.end_of_stream,
            completed.reservation.count,
        ) || source.in_flight != Some(completed.reservation) || source.end_of_stream {
            Err(NativeMasterError::DecodeContract { input })
        } else {
            match audio_source::checked_page(
                input,
                source,
                window.blocks@,
                lane.clock_domain,
                completed.admitted,
            ) {
                Err(error) => Err(error),
                Ok(page) => if !audio_limits::page_fits(page, lane.limits) {
                    Err(NativeMasterError::BoundsExceeded)
                } else {
                    match retained.plus(page.charge) {
                        None => Err(NativeMasterError::BoundsExceeded),
                        Some(total) => if !total.within(lane.limits) {
                            Err(NativeMasterError::BoundsExceeded)
                        } else {
                            Ok(
                                (
                                    total,
                                    ValidatedCompletedAudioPage {
                                        input,
                                        reservation: completed.reservation,
                                        page,
                                        end_of_stream: window.end_of_stream,
                                    },
                                ),
                            )
                        },
                    }
                },
            }
        },
    }
}

/// The lane after the answer of an earlier generation: what was asked for is given back.
pub open spec fn with_stale(lane: LaneModel, source: NativeAudioSource, completed: NativeAudioDecodeResult) -> (
    LaneModel,
    Result<(), NativeMasterError>,
) {
    let cleared = if source.in_flight == Some(completed.reservation) {
        lane.with_source(
            completed.input,
            NativeAudioSource { in_flight: None, ..source },
        )
    } else {
        lane
    };
    match lane.audio_telemetry.without_reservation(completed.reservation.charge) {
        Err(error) => (cleared, Err(error)),
        Ok(telemetry) => (cleared.with_telemetry(telemetry), Ok(())),
    }
}

/// The lane after answers have been looked at, the last first, and the pages that may be
/// pushed. No page is pushed and no cursor moves.
pub open spec fn looked_at(
    lane: LaneModel,
    retained: NativeAudioCharge,
    pages: Seq<ValidatedCompletedAudioPage>,
    completed: Seq<NativeAudioDecodeResult>,
) -> (
    LaneModel,
    Result<(NativeAudioCharge, Seq<ValidatedCompletedAudioPage>), NativeMasterError>,
)
    decreases completed.len(),
{
    if completed.len() == 0 {
        (lane, Ok((retained, pages)))
    } else {
        let answer = completed.last();
        let rest = completed.drop_last();
        match lane.source(answer.input) {
            None => (lane, Err(NativeMasterError::DecodeContract { input: answer.input })),
            Some(source) => if answer.reservation.generation != source.decode_generation {
                match with_stale(lane, source, answer) {
                    (after, Err(error)) => (after, Err(error)),
                    (after, Ok(_)) => looked_at(after, retained, pages, rest),
                }
            } else {
                let counted = with_positioned(lane, answer);
                match page_of(counted, retained, source, answer) {
                    Err(error) => (counted, Err(error)),
                    Ok((total, page)) => looked_at(counted, total, pages.push(page), rest),
                }
            },
        }
    }
}

/// The lane after a page has been pushed, given what pushing it came to.
pub open spec fn with_committed(
    lane: LaneModel,
    validated: ValidatedCompletedAudioPage,
    pushed: Result<NativeAudioCharge, OutsideFailure>,
) -> (LaneModel, Result<(), NativeMasterError>) {
    match lane.source(validated.input) {
        None => (lane, Err(NativeMasterError::DecodeContract { input: validated.input })),
        Some(source) => match audio_source::with_pushed_page(source, validated.page, pushed) {
            Err(error) => (lane, Err(error)),
            Ok(after) => {
                let moved = lane.with_source(
                    validated.input,
                    NativeAudioSource {
                        in_flight: None,
                        end_of_stream: validated.end_of_stream,
                        ..after
                    },
                );
                match lane.audio_telemetry.without_reservation(validated.reservation.charge) {
                    Err(error) => (moved, Err(error)),
                    Ok(telemetry) => (moved.with_telemetry(telemetry), Ok(())),
                }
            },
        },
    }
}

impl NativeMasterLane {
    /// Whether the lane is in order.
    pub open spec fn wf(self) -> bool {
        self@.wf()
    }

    /// The next frame that is to be rendered.
    pub fn expected_next_frame(&self) -> (frame: u64)
        ensures
            frame == self.expected_next_frame,
    {
        self.expected_next_frame
    }

    /// Marks the lane as failed for good.
    pub fn fail(&mut self)
        ensures
            final(self)@ == (LaneModel { failed: true, ..old(self)@ }),
    {
        self.failed = true;
    }

    /// Counts what the sources hold together.
    pub fn retained_charge(&self) -> (charge: NativeAudioCharge)
        ensures
            charge == held_by(self@.sources),
    {
        let ghost sources = self.sources.entries@;
        let mut total: NativeAudioCharge = NativeAudioCharge { blocks: 0, samples: 0, bytes: 0 };
        let mut i: usize = 0;
        assert(sources.take(0) =~= Seq::<(InputId, NativeAudioSource)>::empty());
        while i < self.sources.entries.len()
            invariant
                i <= sources.len(),
                sources == self.sources.entries@,
                total == held_by(sources.take(i as int)),
            decreases sources.len() - i,
        {
            assert(sources.take(i + 1).drop_last() =~= sources.take(i as int));
            assert(sources.take(i + 1).last() == sources[i as int]);
            let held: NativeAudioCharge = match self.sources.entries[i].1.synchronizer {
                Some(synchronizer) => synchronizer.buffered,
                None => NativeAudioCharge { blocks: 0, samples: 0, bytes: 0 },
            };
            total = match total.checked_add(held) {
                Some(total) => total,
                None => NativeAudioCharge {
                    blocks: usize::MAX,
                    samples: usize::MAX,
                    bytes: usize::MAX,
                },
            };
            i = i + 1;
        }
        assert(sources.take(i as int) =~= sources);
        total
    }

    /// Finds the samples of the next frame.
    pub fn next_frame_sample_span(&self) -> (span: Result<(u64, u64), NativeMasterError>)
        requires
            self.wf(),
        ensures
            span == next_span(self@),
            span matches Ok((start, end)) ==> start <= end,
    {
        let cadence_frame: u64 = match self.cadence_origin_frame.checked_add(
            self.expected_next_frame,
        ) {
            None => {
                return Err(NativeMasterError::BoundsExceeded);
            },
            Some(frame) => frame,
        };
        proof {
            let (r, f) = (self.sample_rate, self.frame_rate);
            let o = self.cadence_origin_frame as int;
            lemma_frames_do_not_descend(o, cadence_frame as int, r, f);
            lemma_frames_do_not_descend(o + 1, cadence_frame + 1, r, f);
            lemma_frames_do_not_descend(cadence_frame as int, cadence_frame + 1, r, f);
        }
        let origin: u64 = match absolute_frame_sample_span(
            self.cadence_origin_frame,
            self.sample_rate,
            self.frame_rate,
        ) {
            Err(error) => {
                return Err(error);
            },
            Ok((origin, _)) => origin,
        };
        let (start, end): (u64, u64) = match absolute_frame_sample_span(
            cadence_frame,
            self.sample_rate,
            self.frame_rate,
        ) {
            Err(error) => {
                return Err(error);
            },
            Ok(span) => span,
        };
        Ok((start - origin, end - origin))
    }

    /// Takes note of what the synchronizer of an input holds.
    pub fn observe_synchronizer(&mut self, input: InputId, buffered: NativeAudioCharge) -> (known: bool)
        requires
            old(self).wf(),
        ensures
            final(self).wf(),
            match old(self)@.source(input) {
                Some(source) => match source.synchronizer {
                    Some(synchronizer) => known && final(self)@ == old(self)@.with_source(
                        input,
                        NativeAudioSource {
                            synchronizer: Some(Synchronizer { buffered, ..synchronizer }),
                            ..source
                        },
                    ),
                    None => !known && final(self)@ == old(self)@,
                },
                None => !known && final(self)@ == old(self)@,
            },
    {
        let slot: usize = match self.sources.position(input) {
            None => {
                return false;
            },
            Some(slot) => slot,
        };
        let source: NativeAudioSource = self.sources.entries[slot].1;
        let synchronizer: Synchronizer = match source.synchronizer {
            None => {
                return false;
            },
            Some(synchronizer) => synchronizer,
        };
        let after: NativeAudioSource = NativeAudioSource {
            synchronizer: Some(Synchronizer { buffered, ..synchronizer }),
            ..source
        };
        proof {
            lemma_with_source(self@, input, source);
            lemma_with_source(self@, input, after);
        }
        self.sources.entries.set(slot, (input, after));
        assert(self@ =~= old(self)@.with_source(input, after));
        true
    }

    /// Looks at the answers that have come in, the last first. Answers to requests from before
    /// a restart are dropped. The pages that may be pushed come back with what the lane would
    /// hold with all of them. No cursor moves before every answer has been found in order.
    pub fn check_completed_pages(&mut self, completed: &Vec<NativeAudioDecodeResult>) -> (checked:
        Result<(NativeAudioCharge, Vec<ValidatedCompletedAudioPage>), NativeMasterError>)
        requires
            old(self).wf(),
            forall|i: int| 0 <= i < completed@.len() ==> answer_is_timed(#[trigger] completed@[i]),
        ensures
            final(self).wf(),
            ({
                let (after, outcome) = looked_at(
                    old(self)@,
                    held_by(old(self)@.sources),
                    Seq::empty(),
                    completed@,
                );
                &&& final(self)@ == after
                &&& match checked {
                    Ok((retained, pages)) => outcome == Ok::<
                        (NativeAudioCharge, Seq<ValidatedCompletedAudioPage>),
                        NativeMasterError,
                    >((retained, pages@)),
                    Err(error) => outcome == Err::<
                        (NativeAudioCharge, Seq<ValidatedCompletedAudioPage>),
                        NativeMasterError,
                    >(error),
                }
            }),
    {
        let mut retained: NativeAudioCharge = self.retained_charge();
        let mut pages: Vec<ValidatedCompletedAudioPage> = Vec::new();
        let mut left: usize = completed.len();
        let ghost whole = looked_at(
            self@,
            held_by(self@.sources),
            Seq::empty(),
            completed@,
        );
        assert(completed@.take(left as int) =~= completed@);
        assert(pages@ =~= Seq::<ValidatedCompletedAudioPage>::empty());
        while left > 0
            invariant
                left <= completed@.len(),
                self.wf(),
                forall|i: int|
                    0 <= i < completed@.len() ==> answer_is_timed(#[trigger] completed@[i]),
                whole == looked_at(self@, retained, pages@, completed@.take(left as int)),
                whole == looked_at(
                    old(self)@,
                    held_by(old(self)@.sources),
                    Seq::empty(),
                    completed@,
                ),
            decreases left,
        {
            let ghost before = self@;
            let ghost answers = completed@.take(left as int);
            left = left - 1;
            assert(answers.drop_last() =~= completed@.take(left as int));
            assert(answers.last() == completed@[left as int]);
            let answer: &NativeAudioDecodeResult = &completed[left];
            let input: InputId = answer.input;
            let slot: usize = match self.sources.position(input) {
                None => {
                    return Err(NativeMasterError::DecodeContract { input });
                },
                Some(slot) => slot,
            };
            let source: NativeAudioSource = self.sources.entries[slot].1;
            assert(before.source(input) == Some(source));
            proof {
                lemma_with_source(before, input, before.source(input)->Some_0);
            }
            if answer.reservation.generation != source.decode_generation {
                if source.in_flight == Some(answer.reservation) {
                    let cleared: NativeAudioSource = NativeAudioSource {
                        in_flight: None,
                        ..source
                    };
                    proof {
                        lemma_with_source(before, input, cleared);
                    }
                    self.sources.entries.set(slot, (input, cleared));
                    assert(self@ =~= before.with_source(input, cleared));
                }
                match self.audio_telemetry.release_reservation(answer.reservation.charge) {
                    Err(error) => {
                        return Err(error);
                    },
                    Ok(()) => {},
                }
                continue;
            }
            self.audio_telemetry.positioned_blocks = self.audio_telemetry.positioned_blocks.saturating_add(
            answer.positioned_blocks);
            self.audio_telemetry.positioned_samples = self.audio_telemetry.positioned_samples.saturating_add(
            answer.positioned_samples);
            assert(self@ == with_positioned(before, *answer));
            let window: &DecodedAudioWindow = match &answer.window {
                Err(error) => {
                    return Err(NativeMasterError::Ffmpeg { input, error: *error });
                },
                Ok(window) => window,
            };
            match validate_audio_window_contract(input, window, answer.reservation.count) {
                Err(error) => {
                    return Err(error);
                },
                Ok(()) => {},
            }
            if source.in_flight != Some(answer.reservation) || source.end_of_stream {
                return Err(NativeMasterError::DecodeContract { input });
            }
            let page: ValidatedAudioPage = match validate_audio_page(
                input,
                &source,
                &window.blocks,
                self.clock_domain,
                answer.admitted,
            ) {
                Err(error) => {
                    return Err(error);
                },
                Ok(page) => page,
            };
            match validate_page_bounds(&page, self.limits) {
                Err(error) => {
                    return Err(error);
                },
                Ok(()) => {},
            }
            let total: NativeAudioCharge = match retained.checked_add(page.charge) {
                None => {
                    return Err(NativeMasterError::BoundsExceeded);
                },
                Some(total) => total,
            };
            match validate_retained_bounds(total, self.limits) {
                Err(error) => {
                    return Err(error);
                },
                Ok(()) => {},
            }
            retained = total;
            pages.push(
                ValidatedCompletedAudioPage {
                    input,
                    reservation: answer.reservation,
                    page,
                    end_of_stream: window.end_of_stream,
                },
            );
        }
        assert(completed@.take(0) =~= Seq::<NativeAudioDecodeResult>::empty());
        Ok((retained, pages))
    }

    /// Moves a source on by a page that has been pushed to its synchronizer.
    pub fn commit_completed_page(
        &mut self,
        validated: ValidatedCompletedAudioPage,
        pushed: Result<NativeAudioCharge, OutsideFailure>,
    ) -> (committed: Result<(), NativeMasterError>)
        requires
            old(self).wf(),
        ensures
            final(self).wf(),
            (final(self)@, committed) == with_committed(old(self)@, validated, pushed),
    {
        let ghost before = self@;
        let input: InputId = validated.input;
        let slot: usize = match self.sources.position(input) {
            None => {
                return Err(NativeMasterError::DecodeContract { input });
            },
            Some(slot) => slot,
        };
        let mut source: NativeAudioSource = self.sources.entries[slot].1;
        proof {
            lemma_with_source(before, input, before.source(input)->Some_0);
        }
        match commit_audio_page(&mut source, validated.page, pushed) {
            Err(error) => {
                return Err(error);
            },
            Ok(()) => {},
        }
        source.in_flight = None;
        source.end_of_stream = validated.end_of_stream;
        proof {
            lemma_with_source(before, input, source);
        }
        self.sources.entries.set(slot, (input, source));
        let ghost moved = before.with_source(input, source);
        assert(self@ =~= moved);
        match self.audio_telemetry.release_reservation(validated.reservation.charge) {
            Err(error) => {
                assert(self@ =~= moved);
                Err(error)
            },
            Ok(()) => {
                assert(self@ =~= moved.with_telemetry(self.audio_telemetry));
                Ok(())
            },
        }
    }

    /// Raises the peaks to what the lane holds.
    pub fn observe_retained(&mut self, retained: NativeAudioCharge)
        requires
            old(self).wf(),
        ensures
            final(self).wf(),
            final(self)@ == old(self)@.with_telemetry(
                old(self)@.audio_telemetry.with_retained(retained),
            ),
    {
        observe_retained_peak(&mut self.audio_telemetry, retained);
    }
}

} // verus!
