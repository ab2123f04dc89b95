//! Collecting the sources of a lane, and joining a lane to a project.
use vstd::prelude::*;

use crate::audio_limits;
use crate::audio_limits::{
    observe_retained_peak, validate_page_bounds, validate_retained_bounds, NativeAudioCharge,
    NativeAudioLimits, NativeAudioTelemetry, NativeMasterError, ValidatedAudioPage,
    MAX_NATIVE_AUDIO_STRIPS,
};
use crate::audio_master::{LaneModel, NativeMasterLane};
use crate::audio_mix;
use crate::audio_mix::{native_input_state, StripState};
use crate::audio_preflight::{AudioBudget, AudioPosition, SynchronizerPlan};
use crate::audio_route::NativeAudioRoute;
use crate::audio_source;
use crate::audio_source::{
    validate_audio_window_contract, validate_initial_audio_page, AudioBlock, ChannelLayout,
    DecodedAudioWindow, NativeAudioSource, Synchronizer,
};
use crate::model::{ClockDomainId, FrameRate, InputId, OutsideFailure, StingerAudioPolicy, StingerSlotId};
use crate::ordered;
use crate::ordered::OrderedMap;
use crate::project_plan::{NativeProjectPlan, NativeStingerConfig};

verus! {

/// A lane that is being set up.
pub struct AudioPreflight {
    pub sample_rate: u32,
    pub layout: ChannelLayout,
    pub frame_rate: FrameRate,
    pub clock_domain: ClockDomainId,
    pub expected_next_frame: u64,
    pub limits: NativeAudioLimits,
    /// Whether decoders are kept that have come to the end of their source.
    pub retain_eos_decoders: bool,
    pub budget: AudioBudget,
    pub sources: OrderedMap<InputId, NativeAudioSource>,
    pub retained: NativeAudioCharge,
    pub audio_telemetry: NativeAudioTelemetry,
}

/// What a lane that is being set up holds.
#[verifier::ext_equal]
pub struct PreflightModel {
    pub sample_rate: u32,
    pub layout: ChannelLayout,
    pub frame_rate: FrameRate,
    pub clock_domain: ClockDomainId,
    pub expected_next_frame: u64,
    pub limits: NativeAudioLimits,
    pub retain_eos_decoders: bool,
    pub budget: AudioBudget,
    pub sources: Seq<(InputId, NativeAudioSource)>,
    pub retained: NativeAudioCharge,
    pub audio_telemetry: NativeAudioTelemetry,
}

impl View for AudioPreflight {
    type V = PreflightModel;

    open spec fn view(&self) -> PreflightModel {
        PreflightModel {
            sample_rate: self.sample_rate,
            layout: self.layout,
            frame_rate: self.frame_rate,
            clock_domain: self.clock_domain,
            expected_next_frame: self.expected_next_frame,
            limits: self.limits,
            retain_eos_decoders: self.retain_eos_decoders,
            budget: self.budget,
            sources: self.sources.entries@,
            retained: self.retained,
            audio_telemetry: self.audio_telemetry,
        }
    }
}

impl PreflightModel {
    /// Whether the sources stand in order and every rate can be divided by.
    pub open spec fn wf(self) -> bool {
        &&& self.sample_rate > 0
        &&& self.frame_rate.wf()
        &&& self.limits.wf()
        &&& ordered::ascending(ordered::entry_keys(self.sources))
        &&& forall|i: int| 0 <= i < self.sources.len() ==> (#[trigger] self.sources[i]).1.wf()
    }

    /// The setup with one source more.
    pub open spec fn with_source(self, input: InputId, source: NativeAudioSource) -> Self {
        PreflightModel { sources: ordered::with_entry(self.sources, input, source), ..self }
    }
}

proof fn lemma_with_entry_wf(
    sources: Seq<(InputId, NativeAudioSource)>,
    input: InputId,
    source: NativeAudioSource,
)
    requires
        ordered::ascending(ordered::entry_keys(sources)),
        forall|i: int| 0 <= i < sources.len() ==> (#[trigger] sources[i]).1.wf(),
        source.wf(),
    ensures
        ordered::ascending(ordered::entry_keys(ordered::with_entry(sources, input, source))),
        forall|i: int|
            0 <= i < ordered::with_entry(sources, input, source).len() ==> (
            #[trigger] ordered::with_entry(sources, input, source)[i]).1.wf(),
{
    ordered::lemma_with_entry(sources, input, source);
    ordered::lemma_lower_bound(ordered::entry_keys(sources), input);
    let after = ordered::with_entry(sources, input, source);
    let slot = ordered::lower_bound(ordered::entry_keys(sources), input);
    assert forall|i: int| 0 <= i < after.len() implies (#[trigger] after[i]).1.wf() by {
        if i < slot {
            assert(after[i] == sources[i]);
        } else if i > slot {
            if after.len() == sources.len() {
                assert(after[i] == sources[i]);
            } else {
                assert(after[i] == sources[i - 1]);
            }
        }
    }
}

/// What the first page of a source comes to; a source without blocks stands where it begins.
pub open spec fn first_page(
    setup: PreflightModel,
    input: InputId,
    position: AudioPosition,
    plan: SynchronizerPlan,
    blocks: Seq<AudioBlock>,
    next_sequence: u64,
) -> Result<ValidatedAudioPage, NativeMasterError> {
    if blocks.len() == 0 {
        Ok(audio_source::page_start(plan.source_origin.sample_index, next_sequence))
    } else {
        audio_source::checked_initial_page(
            input,
            blocks,
            position.origin,
            plan.source_origin.sample_index,
            setup.clock_domain,
        )
    }
}

/// The synchronizer of a source as it was set up.
pub open spec fn synchronizer_of(
    setup: PreflightModel,
    position: AudioPosition,
    plan: SynchronizerPlan,
    buffered: NativeAudioCharge,
) -> Synchronizer {
    Synchronizer {
        source_rate: position.source_rate,
        layout: position.layout,
        source_domain: setup.clock_domain,
        source_origin: plan.source_origin,
        master_origin: plan.master_origin,
        max_samples: plan.max_samples,
        max_bytes: plan.max_bytes,
        buffered,
    }
}

/// The setup with a source that plays what is decoded, given what its synchronizer holds.
pub open spec fn admitted(
    setup: PreflightModel,
    input: InputId,
    position: AudioPosition,
    plan: SynchronizerPlan,
    blocks: Seq<AudioBlock>,
    end_of_stream: bool,
    next_sequence: u64,
    pushed: Result<NativeAudioCharge, OutsideFailure>,
) -> Result<PreflightModel, NativeMasterError> {
    match pushed {
        Err(error) => Err(NativeMasterError::Synchronizer(error)),
        Ok(buffered) => match first_page(setup, input, position, plan, blocks, next_sequence) {
            Err(error) => Err(error),
            Ok(page) => if !audio_limits::page_fits(page, setup.limits) {
                Err(NativeMasterError::BoundsExceeded)
            } else {
                match setup.retained.plus(page.charge) {
                    None => Err(NativeMasterError::BoundsExceeded),
                    Some(total) => if !total.within(setup.limits) {
                        Err(NativeMasterError::BoundsExceeded)
                    } else {
                        Ok(
                            PreflightModel {
                                retained: total,
                                ..setup.with_source(
                                    input,
                                    NativeAudioSource {
                                        explicit_silence: false,
                                        synchronizer: Some(
                                            synchronizer_of(setup, position, plan, buffered),
                                        ),
                                        timeline_origin: position.origin,
                                        next_sample: page.next_sample,
                                        next_sequence: page.next_sequence,
                                        audio_start_master_sample:
                                            position.audio_start_master_sample,
                                        end_of_stream,
                                        in_flight: None,
                                        decode_generation: 0,
                                        restart_decode: false,
                                        restart_sample: plan.source_origin.sample_index,
                                        restart_sequence: if blocks.len() == 0 {
                                            next_sequence
                                        } else {
                                            blocks[0].timing.sequence
                                        },
                                        restart_target_ordinal: position.target_ordinal,
                                    },
                                )
                            },
                        )
                    },
                }
            },
        },
    }
}

impl AudioPreflight {
    /// Whether the setup is in order.
    pub open spec fn wf(self) -> bool {
        self@.wf()
    }

    /// Begins to set up a lane.
    pub fn new(
        sample_rate: u32,
        layout: ChannelLayout,
        frame_rate: FrameRate,
        clock_domain: ClockDomainId,
        expected_next_frame: u64,
        limits: NativeAudioLimits,
        retain_eos_decoders: bool,
        budget: AudioBudget,
    ) -> (setup: Self)
        requires
            sample_rate > 0,
            frame_rate.wf(),
            limits.wf(),
        ensures
            setup.wf(),
            setup@ == (PreflightModel {
                sample_rate,
                layout,
                frame_rate,
                clock_domain,
                expected_next_frame,
                limits,
                retain_eos_decoders,
                budget,
                sources: Seq::empty(),
                retained: NativeAudioCharge::zero(),
                audio_telemetry: NativeAudioTelemetry::cleared(),
            }),
    {
        let setup: AudioPreflight = AudioPreflight {
            sample_rate,
            layout,
            frame_rate,
            clock_domain,
            expected_next_frame,
            limits,
            retain_eos_decoders,
            budget,
            sources: OrderedMap::new(),
            retained: NativeAudioCharge { blocks: 0, samples: 0, bytes: 0 },
            audio_telemetry: NativeAudioTelemetry::default(),
        };
        assert(setup@.sources =~= Seq::empty());
        setup
    }

    /// Adds an input that is never heard.
    pub fn add_silence(&mut self, input: InputId)
        requires
            old(self).wf(),
        ensures
            final(self).wf(),
            final(self)@ == old(self)@.with_source(input, NativeAudioSource::silent()),
    {
        let source: NativeAudioSource = NativeAudioSource::silence();
        proof {
            lemma_with_entry_wf(self@.sources, input, source);
        }
        self.sources.insert(input, source);
    }

    /// Looks at the first block of a source. A source that ends without one is never heard:
    /// then there is `None`.
    pub fn first_block(&self, input: InputId, window: &DecodedAudioWindow) -> (first: Result<
        Option<AudioBlock>,
        NativeMasterError,
    >)
        ensures
            first == (if !audio_source::window_keeps_contract(
                window.blocks@.len(),
                window.end_of_stream,
                1,
            ) {
                Err(NativeMasterError::DecodeContract { input })
            } else if window.blocks@.len() == 0 {
                Ok(None)
            } else {
                Ok(Some(window.blocks@[0]))
            }),
    {
        match validate_audio_window_contract(input, window, 1) {
            Err(error) => {
                return Err(error);
            },
            Ok(()) => {},
        }
        if window.blocks.len() == 0 {
            return Ok(None);
        }
        Ok(Some(window.blocks[0]))
    }

    /// Counts the blocks that a decoder has passed over.
    pub fn note_position(&mut self, skipped_blocks: usize, skipped_samples: usize)
        requires
            old(self).wf(),
        ensures
            final(self).wf(),
            final(self)@ == (PreflightModel {
                audio_telemetry: NativeAudioTelemetry {
                    positioned_blocks: audio_limits::capped_u64(
                        old(self)@.audio_telemetry.positioned_blocks,
                        skipped_blocks as int,
                    ),
                    positioned_samples: audio_limits::capped_u64(
                        old(self)@.audio_telemetry.positioned_samples,
                        skipped_samples as int,
                    ),
                    ..old(self)@.audio_telemetry
                },
                ..old(self)@
            }),
    {
        self.audio_telemetry.positioned_blocks = self.audio_telemetry.positioned_blocks.saturating_add(
        skipped_blocks as u64);
        self.audio_telemetry.positioned_samples = self.audio_telemetry.positioned_samples.saturating_add(
        skipped_samples as u64);
    }

    /// Adds a source that plays what is decoded. `window` holds its first page and `pushed`
    /// tells what its synchronizer holds with it. `positioned_end` and `next_sequence` say where
    /// the decoder stands. The result tells whether the decoder is needed further.
    pub fn admit_source(
        &mut self,
        input: InputId,
        position: &AudioPosition,
        plan: &SynchronizerPlan,
        window: &DecodedAudioWindow,
        positioned_end: bool,
        next_sequence: u64,
        pushed: Result<NativeAudioCharge, OutsideFailure>,
    ) -> (keeps_decoder: Result<bool, NativeMasterError>)
        requires
            old(self).wf(),
            position.source_rate > 0,
            audio_source::blocks_are_timed(window.blocks@),
            window.blocks@.len() > 0 ==> window.blocks@[0].sample_rate > 0,
        ensures
            final(self).wf(),
            match admitted(
                old(self)@,
                input,
                *position,
                *plan,
                window.blocks@,
                window.end_of_stream || positioned_end,
                next_sequence,
                pushed,
            ) {
                Err(error) => keeps_decoder == Err::<bool, NativeMasterError>(error)
                    && final(self)@ == old(self)@,
                Ok(after) => final(self)@ == after && keeps_decoder == Ok::<
                    bool,
                    NativeMasterError,
                >(old(self)@.retain_eos_decoders || !window.end_of_stream),
            },
    {
        let buffered: NativeAudioCharge = match pushed {
            Err(error) => {
                return Err(NativeMasterError::Synchronizer(error));
            },
            Ok(buffered) => buffered,
        };
        let page: ValidatedAudioPage = if window.blocks.len() == 0 {
            ValidatedAudioPage {
                next_sample: plan.source_origin.sample_index,
                next_sequence,
                charge: NativeAudioCharge { blocks: 0, samples: 0, bytes: 0 },
            }
        } else {
            match validate_initial_audio_page(
                input,
                &window.blocks,
                position.origin,
                plan.source_origin.sample_index,
                self.clock_domain,
            ) {
                Err(error) => {
                    return Err(error);
                },
                Ok(page) => page,
            }
        };
        match validate_page_bounds(&page, self.limits) {
            Err(error) => {
                return Err(error);
            },
            Ok(()) => {},
        }
        let total: NativeAudioCharge = match self.retained.checked_add(page.charge) {
            None => {
                return Err(NativeMasterError::BoundsExceeded);
            },
            Some(total) => total,
        };
        match validate_retained_bounds(total, self.limits) {
            Err(error) => {
                return Err(error);
            },
            Ok(()) => {},
        }
        let restart_sequence: u64 = if window.blocks.len() == 0 {
            next_sequence
        } else {
            window.blocks[0].timing.sequence
        };
        let source: NativeAudioSource = NativeAudioSource::decoded(
            Synchronizer {
                source_rate: position.source_rate,
                layout: position.layout,
                source_domain: self.clock_domain,
                source_origin: plan.source_origin,
                master_origin: plan.master_origin,
                max_samples: plan.max_samples,
                max_bytes: plan.max_bytes,
                buffered,
            },
            position.origin,
            page,
            position.audio_start_master_sample,
            window.end_of_stream || positioned_end,
            position.target_ordinal,
            restart_sequence,
        );
        proof {
            lemma_with_entry_wf(self@.sources, input, source);
        }
        self.sources.insert(input, source);
        self.retained = total;
        Ok(self.retain_eos_decoders || !window.end_of_stream)
    }

    /// Ends the setup.
    pub fn finish(self) -> (lane: NativeMasterLane)
        requires
            self.wf(),
        ensures
            lane.wf(),
            lane@ == (LaneModel {
                sample_rate: self@.sample_rate,
                layout: self@.layout,
                frame_rate: self@.frame_rate,
                clock_domain: self@.clock_domain,
                expected_next_frame: self@.expected_next_frame,
                cadence_origin_frame: 0,
                ready_frame: None,
                sources: self@.sources,
                limits: self@.limits,
                audio_telemetry: self@.audio_telemetry.with_retained(self@.retained),
                collect_output: true,
                failed: false,
            }),
    {
        let mut telemetry: NativeAudioTelemetry = self.audio_telemetry;
        observe_retained_peak(&mut telemetry, self.retained);
        NativeMasterLane {
            sample_rate: self.sample_rate,
            layout: self.layout,
            frame_rate: self.frame_rate,
            clock_domain: self.clock_domain,
            expected_next_frame: self.expected_next_frame,
            cadence_origin_frame: 0,
            ready_frame: None,
            sources: self.sources,
            limits: self.limits,
            audio_telemetry: telemetry,
            collect_output: true,
            failed: false,
        }
    }
}

/// A source that is set up holds what it was charged for, within the bounds.
pub proof fn setups_keep_to_the_bounds(
    setup: PreflightModel,
    input: InputId,
    position: AudioPosition,
    plan: SynchronizerPlan,
    blocks: Seq<AudioBlock>,
    end_of_stream: bool,
    next_sequence: u64,
    pushed: Result<NativeAudioCharge, OutsideFailure>,
)
    ensures
        admitted(
            setup,
            input,
            position,
            plan,
            blocks,
            end_of_stream,
            next_sequence,
            pushed,
        ) matches Ok(after) ==> {
            &&& after.retained.within(setup.limits)
            &&& after.retained.blocks == setup.retained.blocks + blocks.len()
            &&& after.retained.samples == setup.retained.samples + audio_source::total_samples(
                blocks,
            )
        },
{
    if blocks.len() > 0 {
        audio_source::page_moves_by_its_samples(
            audio_source::AudioPageRules {
                input,
                sample_rate: blocks[0].sample_rate,
                layout: blocks[0].layout,
                timeline_origin: position.origin,
                clock_domain: setup.clock_domain,
            },
            plan.source_origin.sample_index,
            blocks[0].timing.sequence,
            blocks,
        );
    }
}

/// Whether a Stinger is preloaded and heard.
pub open spec fn is_heard(config: NativeStingerConfig) -> bool {
    config.preload && config.audio_policy != StingerAudioPolicy::Muted
}

/// The media of the Stingers that are preloaded and heard.
pub open spec fn heard_media(stingers: Seq<(StingerSlotId, NativeStingerConfig)>) -> Seq<InputId>
    decreases stingers.len(),
{
    if stingers.len() == 0 {
        Seq::empty()
    } else if is_heard(stingers.last().1) {
        ordered::with_key(heard_media(stingers.drop_last()), stingers.last().1.media_input)
    } else {
        heard_media(stingers.drop_last())
    }
}

/// Lists the media of the Stingers that are preloaded and heard, each once.
pub fn requested_stinger_inputs(project: &NativeProjectPlan) -> (inputs: Vec<InputId>)
    ensures
        inputs@ == heard_media(project.stingers.entries@),
        ordered::ascending(inputs@),
{
    let ghost stingers = project.stingers.entries@;
    let mut inputs: Vec<InputId> = Vec::new();
    let mut i: usize = 0;
    assert(stingers.take(0) =~= Seq::<(StingerSlotId, NativeStingerConfig)>::empty());
    assert(inputs@ =~= Seq::<InputId>::empty());
    while i < project.stingers.entries.len()
        invariant
            i <= stingers.len(),
            stingers == project.stingers.entries@,
            ordered::ascending(inputs@),
            inputs@ == heard_media(stingers.take(i as int)),
        decreases stingers.len() - i,
    {
        assert(stingers.take(i + 1).drop_last() =~= stingers.take(i as int));
        assert(stingers.take(i + 1).last() == stingers[i as int]);
        let config: NativeStingerConfig = project.stingers.entries[i].1;
        if config.preload && config.audio_policy != StingerAudioPolicy::Muted {
            let _ = ordered::insert_key(&mut inputs, config.media_input);
        }
        i = i + 1;
    }
    assert(stingers.take(i as int) =~= stingers);
    inputs
}

/// The media from `i` on that have audio, and those that have none, given what is known of
/// each.
pub open spec fn split_media(
    requested: Seq<InputId>,
    resolved: Seq<InputId>,
    has_audio: Seq<Result<bool, NativeMasterError>>,
    i: int,
    heard: Seq<InputId>,
    silent: Seq<InputId>,
) -> Result<(Seq<InputId>, Seq<InputId>), NativeMasterError>
    decreases requested.len() - i,
{
    if i >= requested.len() {
        Ok((heard, silent))
    } else if !resolved.contains(requested[i]) {
        Err(NativeMasterError::MissingAudioRoute { input: requested[i] })
    } else {
        match has_audio[i] {
            Err(error) => Err(error),
            Ok(true) => split_media(
                requested,
                resolved,
                has_audio,
                i + 1,
                heard.push(requested[i]),
                silent,
            ),
            Ok(false) => split_media(
                requested,
                resolved,
                has_audio,
                i + 1,
                heard,
                silent.push(requested[i]),
            ),
        }
    }
}

/// Splits the media of Stingers into those that have audio and those that have none.
pub fn split_stinger_inputs(
    requested: &Vec<InputId>,
    resolved: &Vec<InputId>,
    has_audio: &Vec<Result<bool, NativeMasterError>>,
) -> (split: Result<(Vec<InputId>, Vec<InputId>), NativeMasterError>)
    requires
        has_audio@.len() == requested@.len(),
    ensures
        match split {
            Ok((heard, silent)) => split_media(
                requested@,
                resolved@,
                has_audio@,
                0,
                Seq::empty(),
                Seq::empty(),
            ) == Ok::<(Seq<InputId>, Seq<InputId>), NativeMasterError>((heard@, silent@)),
            Err(error) => split_media(
                requested@,
                resolved@,
                has_audio@,
                0,
                Seq::empty(),
                Seq::empty(),
            ) == Err::<(Seq<InputId>, Seq<InputId>), NativeMasterError>(error),
        },
{
    let mut heard: Vec<InputId> = Vec::new();
    let mut silent: Vec<InputId> = Vec::new();
    let mut i: usize = 0;
    let ghost whole = split_media(
        requested@,
        resolved@,
        has_audio@,
        0,
        Seq::empty(),
        Seq::empty(),
    );
    assert(heard@ =~= Seq::<InputId>::empty());
    assert(silent@ =~= Seq::<InputId>::empty());
    while i < requested.len()
        invariant
            i <= requested@.len(),
            has_audio@.len() == requested@.len(),
            whole == split_media(
                requested@,
                resolved@,
                has_audio@,
                0,
                Seq::empty(),
                Seq::empty(),
            ),
            whole == split_media(
                requested@,
                resolved@,
                has_audio@,
                i as int,
                heard@,
                silent@,
            ),
        decreases requested@.len() - i,
    {
        let input: InputId = requested[i];
        if !ordered::lists_key(resolved, input) {
            return Err(NativeMasterError::MissingAudioRoute { input });
        }
        match has_audio[i] {
            Err(error) => {
                return Err(error);
            },
            Ok(found) => {
                if found {
                    heard.push(input);
                } else {
                    silent.push(input);
                }
            },
        }
        i = i + 1;
    }
    Ok((heard, silent))
}

/// Checks that a project has no more inputs than may be mixed.
pub fn check_strip_count(project: &NativeProjectPlan) -> (checked: Result<(), NativeMasterError>)
    ensures
        checked == (if project.audio_routes.entries@.len() > MAX_NATIVE_AUDIO_STRIPS {
            Err(NativeMasterError::BoundsExceeded)
        } else {
            Ok(())
        }),
{
    if project.audio_routes.entries.len() > MAX_NATIVE_AUDIO_STRIPS {
        return Err(NativeMasterError::BoundsExceeded);
    }
    Ok(())
}

/// An input that the mixer has to learn of.
#[derive(Clone, Copy, Debug, PartialEq, Eq, Structural)]
pub enum StripAction {
    /// The input plays the audio of a source.
    Alias { input: InputId, source: InputId, state: StripState },
    /// The input is never heard.
    Silence { input: InputId, state: StripState },
}

/// The settings of the sources of a lane, in order.
pub open spec fn source_states(
    project: NativeProjectPlan,
    sources: Seq<(InputId, NativeAudioSource)>,
) -> Result<Seq<(InputId, StripState)>, NativeMasterError>
    decreases sources.len(),
{
    if sources.len() == 0 {
        Ok(Seq::empty())
    } else {
        match source_states(project, sources.drop_last()) {
            Err(error) => Err(error),
            Ok(states) => match audio_mix::strip_state(project, sources.last().0) {
                Err(error) => Err(error),
                Ok(state) => Ok(states.push((sources.last().0, state))),
            },
        }
    }
}

proof fn lemma_broken_states(
    project: NativeProjectPlan,
    sources: Seq<(InputId, NativeAudioSource)>,
    count: int,
)
    requires
        0 <= count <= sources.len(),
        source_states(project, sources.take(count)) is Err,
    ensures
        source_states(project, sources) == source_states(project, sources.take(count)),
    decreases sources.len() - count,
{
    if count == sources.len() {
        assert(sources.take(count) =~= sources);
    } else {
        assert(sources.take(count + 1).drop_last() =~= sources.take(count));
        lemma_broken_states(project, sources, count + 1);
    }
}

/// The sources after the inputs of a project have been joined to them from `i` on, and what
/// the mixer has to learn.
pub open spec fn joined(
    project: NativeProjectPlan,
    known: Seq<InputId>,
    sources: Seq<(InputId, NativeAudioSource)>,
    i: int,
    actions: Seq<StripAction>,
) -> Result<(Seq<(InputId, NativeAudioSource)>, Seq<StripAction>), NativeMasterError>
    decreases project.audio_strips.entries@.len() - i,
{
    if i >= project.audio_strips.entries@.len() {
        Ok((sources, actions))
    } else {
        let input = project.audio_strips.entries@[i].0;
        if known.contains(input) {
            joined(project, known, sources, i + 1, actions)
        } else {
            match audio_mix::strip_state(project, input) {
                Err(error) => Err(error),
                Ok(state) => match project.audio_routes.lookup(input) {
                    None => Err(NativeMasterError::MissingAudioRoute { input }),
                    Some(NativeAudioRoute::Leaf(source)) => joined(
                        project,
                        known,
                        sources,
                        i + 1,
                        actions.push(StripAction::Alias { input, source, state }),
                    ),
                    Some(NativeAudioRoute::Silence) => joined(
                        project,
                        known,
                        ordered::with_entry(sources, input, NativeAudioSource::silent()),
                        i + 1,
                        actions.push(StripAction::Silence { input, state }),
                    ),
                },
            }
        }
    }
}

impl NativeMasterLane {
    /// Finds the settings of all sources. The lane does not change: where one has none, the
    /// mixer keeps the settings it has.
    pub fn apply_project_audio_strips(&self, project: &NativeProjectPlan) -> (states: Result<
        Vec<(InputId, StripState)>,
        NativeMasterError,
    >)
        requires
            project.wf(),
            audio_mix::gains_are_bounded(*project),
        ensures
            match states {
                Ok(states) => source_states(*project, self@.sources) == Ok::<
                    Seq<(InputId, StripState)>,
                    NativeMasterError,
                >(states@),
                Err(error) => source_states(*project, self@.sources) == Err::<
                    Seq<(InputId, StripState)>,
                    NativeMasterError,
                >(error),
            },
    {
        let ghost sources = self@.sources;
        let mut states: Vec<(InputId, StripState)> = Vec::new();
        let mut i: usize = 0;
        assert(sources.take(0) =~= Seq::<(InputId, NativeAudioSource)>::empty());
        assert(states@ =~= Seq::<(InputId, StripState)>::empty());
        while i < self.sources.entries.len()
            invariant
                i <= sources.len(),
                sources == self.sources.entries@,
                project.wf(),
                audio_mix::gains_are_bounded(*project),
                source_states(*project, sources.take(i as int)) == Ok::<
                    Seq<(InputId, StripState)>,
                    NativeMasterError,
                >(states@),
            decreases sources.len() - i,
        {
            assert(sources.take(i + 1).drop_last() =~= sources.take(i as int));
            assert(sources.take(i + 1).last() == sources[i as int]);
            let input: InputId = self.sources.entries[i].0;
            match native_input_state(project, input) {
                Err(error) => {
                    proof {
                        lemma_broken_states(*project, sources, i + 1);
                    }
                    return Err(error);
                },
                Ok(state) => {
                    states.push((input, state));
                },
            }
            i = i + 1;
        }
        assert(sources.take(i as int) =~= sources);
        Ok(states)
    }

    /// Joins the inputs of a project to the lane: inputs that play a source become aliases of
    /// it, inputs without audio become silent sources. Returns the settings of the sources that
    /// were there and what the mixer has to learn. Where an input has no route, nothing
    /// changes.
    pub fn realize_project_audio(&mut self, project: &NativeProjectPlan) -> (realized: Result<
        (Vec<(InputId, StripState)>, Vec<StripAction>),
        NativeMasterError,
    >)
        requires
            old(self).wf(),
            project.wf(),
            audio_mix::gains_are_bounded(*project),
        ensures
            final(self).wf(),
            ({
                let states = source_states(*project, old(self)@.sources);
                let inputs = joined(
                    *project,
                    old(self)@.inputs(),
                    old(self)@.sources,
                    0,
                    Seq::empty(),
                );
                match realized {
                    Ok((known, actions)) => {
                        &&& states == Ok::<Seq<(InputId, StripState)>, NativeMasterError>(known@)
                        &&& inputs == Ok::<
                            (Seq<(InputId, NativeAudioSource)>, Seq<StripAction>),
                            NativeMasterError,
                        >((final(self)@.sources, actions@))
                        &&& final(self)@ == (LaneModel {
                            sources: final(self)@.sources,
                            ..old(self)@
                        })
                    },
                    Err(error) => final(self)@ == old(self)@ && error == (match states {
                        Err(error) => error,
                        Ok(_) => inputs->Err_0,
                    }) && (states is Err || inputs is Err),
                }
            }),
    {
        let states: Vec<(InputId, StripState)> = match self.apply_project_audio_strips(project) {
            Err(error) => {
                return Err(error);
            },
            Ok(states) => states,
        };
        let mut added: Vec<InputId> = Vec::new();
        let mut actions: Vec<StripAction> = Vec::new();
        let ghost known = self@.inputs();
        let ghost start = self@;
        let ghost whole = joined(*project, known, self@.sources, 0, Seq::empty());
        let ghost mut sources = self@.sources;
        let mut i: usize = 0;
        assert(actions@ =~= Seq::<StripAction>::empty());
        while i < project.audio_strips.entries.len()
            invariant
                i <= project.audio_strips.entries@.len(),
                self.wf(),
                self@ == start,
                start == old(self)@,
                known == start.inputs(),
                project.wf(),
                audio_mix::gains_are_bounded(*project),
                source_states(*project, start.sources) is Ok,
                whole == joined(*project, known, start.sources, 0, Seq::empty()),
                whole == joined(*project, known, sources, i as int, actions@),
                sources == silenced(start.sources, added@),
            decreases project.audio_strips.entries@.len() - i,
        {
            let input: InputId = project.audio_strips.entries[i].0;
            let ghost before = added@;
            proof {
                self.sources.lemma_entries();
            }
            if self.sources.position(input).is_none() {
                assert(!known.contains(input));
                let state: StripState = match native_input_state(project, input) {
                    Err(error) => {
                        return Err(error);
                    },
                    Ok(state) => state,
                };
                match project.audio_route(input) {
                    None => {
                        return Err(NativeMasterError::MissingAudioRoute { input });
                    },
                    Some(NativeAudioRoute::Leaf(source)) => {
                        actions.push(StripAction::Alias { input, source, state });
                    },
                    Some(NativeAudioRoute::Silence) => {
                        added.push(input);
                        actions.push(StripAction::Silence { input, state });
                        proof {
                            assert(added@.drop_last() =~= before);
                            sources = ordered::with_entry(
                                sources,
                                input,
                                NativeAudioSource::silent(),
                            );
                        }
                    },
                }
            } else {
                assert(known.contains(input));
            }
            i = i + 1;
        }
        let mut k: usize = 0;
        assert(added@.take(0) =~= Seq::<InputId>::empty());
        while k < added.len()
            invariant
                k <= added@.len(),
                self.wf(),
                self@ == (LaneModel { sources: self@.sources, ..start }),
                self@.sources == silenced(start.sources, added@.take(k as int)),
            decreases added@.len() - k,
        {
            assert(added@.take(k + 1).drop_last() =~= added@.take(k as int));
            assert(added@.take(k + 1).last() == added@[k as int]);
            proof {
                lemma_with_entry_wf(
                    self@.sources,
                    added@[k as int],
                    NativeAudioSource::silent(),
                );
            }
            self.sources.insert(added[k], NativeAudioSource::silence());
            k = k + 1;
        }
        assert(added@.take(k as int) =~= added@);
        Ok((states, actions))
    }
}

/// The sources with silent ones added.
pub open spec fn silenced(
    sources: Seq<(InputId, NativeAudioSource)>,
    added: Seq<InputId>,
) -> Seq<(InputId, NativeAudioSource)>
    decreases added.len(),
{
    if added.len() == 0 {
        sources
    } else {
        ordered::with_entry(
            silenced(sources, added.drop_last()),
            added.last(),
            NativeAudioSource::silent(),
        )
    }
}

} // verus!
