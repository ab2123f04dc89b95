//! Decoded audio as it enters a source: the blocks, the pages, and silence after the end.
use vstd::prelude::*;

use crate::audio_limits;
use crate::audio_limits::{
    audio_sample_bytes, NativeAudioCharge, NativeAudioLimits, NativeMasterError,
    ValidatedAudioPage,
};
use crate::audio_timing;
use crate::audio_timing::{
    cadence_sample_at_timestamp, normalized_sample_endpoint, original_timestamp_samples,
    AudioCadenceOrigin,
};
use crate::model::{ClockDomainId, InputId, OutsideFailure};
use crate::source::{MediaTiming, OriginalTimestamp, TimeBase};

verus! {

/// An order of channels, by its number, and how many there are.
#[derive(Clone, Copy, Debug, PartialEq, Eq, Structural)]
pub struct ChannelLayout {
    pub id: u64,
    pub channels: usize,
}

/// A decoded block of audio. Its samples are held elsewhere, under `payload`.
#[derive(Clone, Copy, Debug, PartialEq, Eq, Structural)]
pub struct AudioBlock {
    pub timing: MediaTiming,
    pub sample_rate: u32,
    pub layout: ChannelLayout,
    pub sample_count: usize,
    pub payload: u64,
}

/// What a decoder brought of one source.
#[derive(Debug)]
pub struct DecodedAudioWindow {
    pub blocks: Vec<AudioBlock>,
    pub end_of_stream: bool,
}

/// Silence that stands in for samples after the end of a source.
#[derive(Clone, Copy, Debug, PartialEq, Eq, Structural)]
pub struct AudioSilenceSpan {
    pub timing: MediaTiming,
    pub samples: usize,
}

/// What is known of the buffer that maps a source to the Master clock.
#[derive(Clone, Copy, Debug, PartialEq, Eq, Structural)]
pub struct Synchronizer {
    pub source_rate: u32,
    pub layout: ChannelLayout,
    pub source_domain: ClockDomainId,
    pub source_origin: AudioCadenceOrigin,
    pub master_origin: AudioCadenceOrigin,
    pub max_samples: usize,
    pub max_bytes: usize,
    pub buffered: NativeAudioCharge,
}

/// What a source may bring with the answer to a request.
#[derive(Clone, Copy, Debug, PartialEq, Eq, Structural)]
pub struct NativeAudioReservation {
    pub count: u32,
    pub charge: NativeAudioCharge,
    pub generation: u64,
}

/// Where the audio of one input stands.
#[derive(Clone, Copy, Debug, PartialEq, Eq, Structural)]
pub struct NativeAudioSource {
    pub explicit_silence: bool,
    pub synchronizer: Option<Synchronizer>,
    pub timeline_origin: AudioCadenceOrigin,
    pub next_sample: u64,
    pub next_sequence: u64,
    pub audio_start_master_sample: u64,
    pub end_of_stream: bool,
    pub in_flight: Option<NativeAudioReservation>,
    pub decode_generation: u64,
    pub restart_decode: bool,
    pub restart_sample: u64,
    pub restart_sequence: u64,
    pub restart_target_ordinal: usize,
}

impl NativeAudioSource {
    /// Whether its sample rate can be divided by.
    pub open spec fn wf(self) -> bool {
        self.synchronizer matches Some(synchronizer) ==> synchronizer.source_rate > 0
    }

    /// An input that is never heard.
    pub open spec fn silent() -> Self {
        NativeAudioSource {
            explicit_silence: true,
            synchronizer: None,
            timeline_origin: AudioCadenceOrigin { timestamp_ns: 0, sample_index: 0 },
            next_sample: 0,
            next_sequence: 0,
            audio_start_master_sample: 0,
            end_of_stream: true,
            in_flight: None,
            decode_generation: 0,
            restart_decode: false,
            restart_sample: 0,
            restart_sequence: 0,
            restart_target_ordinal: 0,
        }
    }

    /// Makes an input that is never heard.
    pub fn silence() -> (source: Self)
        ensures
            source == NativeAudioSource::silent(),
            source.wf(),
    {
        NativeAudioSource {
            explicit_silence: true,
            synchronizer: None,
            timeline_origin: AudioCadenceOrigin { timestamp_ns: 0, sample_index: 0 },
            next_sample: 0,
            next_sequence: 0,
            audio_start_master_sample: 0,
            end_of_stream: true,
            in_flight: None,
            decode_generation: 0,
            restart_decode: false,
            restart_sample: 0,
            restart_sequence: 0,
            restart_target_ordinal: 0,
        }
    }

    /// Makes an input that plays what is decoded. A restart goes back to where the
    /// synchronizer begins.
    pub fn decoded(
        synchronizer: Synchronizer,
        timeline_origin: AudioCadenceOrigin,
        page: ValidatedAudioPage,
        audio_start_master_sample: u64,
        end_of_stream: bool,
        restart_target_ordinal: usize,
        restart_sequence: u64,
    ) -> (source: Self)
        ensures
            source == (NativeAudioSource {
                explicit_silence: false,
                synchronizer: Some(synchronizer),
                timeline_origin,
                next_sample: page.next_sample,
                next_sequence: page.next_sequence,
                audio_start_master_sample,
                end_of_stream,
                in_flight: None,
                decode_generation: 0,
                restart_decode: false,
                restart_sample: synchronizer.source_origin.sample_index,
                restart_sequence,
                restart_target_ordinal,
            }),
    {
        NativeAudioSource {
            explicit_silence: false,
            synchronizer: Some(synchronizer),
            timeline_origin,
            next_sample: page.next_sample,
            next_sequence: page.next_sequence,
            audio_start_master_sample,
            end_of_stream,
            in_flight: None,
            decode_generation: 0,
            restart_decode: false,
            restart_sample: synchronizer.source_origin.sample_index,
            restart_sequence,
            restart_target_ordinal,
        }
    }

    /// What the source holds.
    pub open spec fn held(self) -> NativeAudioCharge {
        match self.synchronizer {
            Some(synchronizer) => synchronizer.buffered,
            None => NativeAudioCharge::zero(),
        }
    }
}

/// Whether a window holds no more blocks than asked for, and fewer only at the end.
pub open spec fn window_keeps_contract(count: nat, end_of_stream: bool, requested: u32) -> bool {
    count <= requested && (end_of_stream || count == requested) && (count > 0 || end_of_stream)
}

/// Checks that a window holds no more blocks than asked for, and fewer only at the end.
pub fn validate_audio_window_contract(input: InputId, window: &DecodedAudioWindow, requested: u32) -> (checked:
    Result<(), NativeMasterError>)
    ensures
        checked == (if window_keeps_contract(
            window.blocks@.len(),
            window.end_of_stream,
            requested,
        ) {
            Ok(())
        } else {
            Err(NativeMasterError::DecodeContract { input })
        }),
{
    let count: u64 = window.blocks.len() as u64;
    if count > requested as u64 || (count == 0 && !window.end_of_stream) || (!window.end_of_stream
        && count != requested as u64) {
        return Err(NativeMasterError::DecodeContract { input });
    }
    Ok(())
}

/// What every block of a page has to agree with.
#[derive(Clone, Copy, Debug, PartialEq, Eq, Structural)]
pub struct AudioPageRules {
    pub input: InputId,
    pub sample_rate: u32,
    pub layout: ChannelLayout,
    pub timeline_origin: AudioCadenceOrigin,
    pub clock_domain: ClockDomainId,
}

/// Whether a block begins and ends where its samples do.
pub open spec fn times_agree(block: AudioBlock, raw_start: int, sample_rate: u32) -> bool {
    let raw_end = raw_start + block.sample_count;
    let start = audio_timing::sample_boundary(raw_start, sample_rate);
    let end = audio_timing::sample_boundary(raw_end, sample_rate);
    &&& audio_timing::boundary_fits(raw_start, sample_rate)
    &&& audio_timing::boundary_fits(raw_end, sample_rate)
    &&& 0 <= end - start <= i64::MAX
    &&& block.timing.presentation_ns == start
    &&& block.timing.duration_ns == end - start
}

/// Checks that a block begins and ends where its samples do.
pub fn validate_block_normalized_timing(
    block: &AudioBlock,
    raw_start_sample: i128,
    sample_rate: u32,
    input: InputId,
) -> (checked: Result<(), NativeMasterError>)
    ensures
        checked == (if times_agree(*block, raw_start_sample as int, sample_rate) {
            Ok(())
        } else {
            Err(NativeMasterError::InvalidTimeline { input })
        }),
{
    let broken: NativeMasterError = NativeMasterError::InvalidTimeline { input };
    let raw_end_sample: i128 = match raw_start_sample.checked_add(block.sample_count as i128) {
        None => {
            return Err(broken);
        },
        Some(end) => end,
    };
    let normalized_start: i64 = match normalized_sample_endpoint(raw_start_sample, sample_rate) {
        None => {
            return Err(broken);
        },
        Some(start) => start,
    };
    let normalized_end: i64 = match normalized_sample_endpoint(raw_end_sample, sample_rate) {
        None => {
            return Err(broken);
        },
        Some(end) => end,
    };
    let duration: i64 = match normalized_end.checked_sub(normalized_start) {
        None => {
            return Err(broken);
        },
        Some(duration) => duration,
    };
    if duration < 0 || block.timing.presentation_ns != normalized_start || block.timing.duration_ns
        != duration as u64 {
        return Err(broken);
    }
    Ok(())
}

/// What a page comes to with one block more.
pub open spec fn with_block(rules: AudioPageRules, page: ValidatedAudioPage, block: AudioBlock) -> Result<
    ValidatedAudioPage,
    NativeMasterError,
> {
    let broken = NativeMasterError::InvalidTimeline { input: rules.input };
    if block.sample_rate != rules.sample_rate || block.layout != rules.layout
        || block.timing.clock_domain != rules.clock_domain || block.timing.sequence
        != page.next_sequence {
        Err(broken)
    } else {
        let begin = audio_timing::sample_at(
            rules.timeline_origin,
            block.timing.presentation_ns as int,
            rules.sample_rate,
        );
        match audio_timing::whole_samples(block.timing, rules.sample_rate) {
            None => Err(broken),
            Some(raw_start) => if !(0 <= begin <= u64::MAX) {
                Err(NativeMasterError::BoundsExceeded)
            } else if begin != page.next_sample || begin + block.sample_count > u64::MAX
                || !times_agree(block, raw_start, rules.sample_rate) {
                Err(broken)
            } else if audio_limits::sample_bytes(block.sample_count, rules.layout.channels)
                > usize::MAX {
                Err(NativeMasterError::BoundsExceeded)
            } else {
                match page.charge.plus(
                    NativeAudioCharge {
                        blocks: 1,
                        samples: block.sample_count,
                        bytes: audio_limits::sample_bytes(
                            block.sample_count,
                            rules.layout.channels,
                        ) as usize,
                    },
                ) {
                    None => Err(NativeMasterError::BoundsExceeded),
                    Some(charge) => if page.next_sequence == u64::MAX {
                        Err(broken)
                    } else {
                        Ok(
                            ValidatedAudioPage {
                                next_sample: (begin + block.sample_count) as u64,
                                next_sequence: (page.next_sequence + 1) as u64,
                                charge,
                            },
                        )
                    },
                }
            },
        }
    }
}

/// Adds one block to a page.
pub fn add_audio_block(rules: AudioPageRules, page: ValidatedAudioPage, block: &AudioBlock) -> (added:
    Result<ValidatedAudioPage, NativeMasterError>)
    requires
        rules.sample_rate > 0,
        block.timing.original.time_base.denominator > 0,
    ensures
        added == with_block(rules, page, *block),
{
    let broken: NativeMasterError = NativeMasterError::InvalidTimeline { input: rules.input };
    if block.sample_rate != rules.sample_rate || block.layout != rules.layout
        || block.timing.clock_domain != rules.clock_domain || block.timing.sequence
        != page.next_sequence {
        return Err(broken);
    }
    let raw_start: i128 = match original_timestamp_samples(block.timing, rules.sample_rate) {
        None => {
            return Err(broken);
        },
        Some(start) => start,
    };
    let relative_start: u64 = match cadence_sample_at_timestamp(
        rules.timeline_origin,
        block.timing.presentation_ns,
        rules.sample_rate,
    ) {
        Err(error) => {
            return Err(error);
        },
        Ok(start) => start,
    };
    if relative_start != page.next_sample {
        return Err(broken);
    }
    let end_sample: u64 = match page.next_sample.checked_add(block.sample_count as u64) {
        None => {
            return Err(broken);
        },
        Some(end) => end,
    };
    match validate_block_normalized_timing(block, raw_start, rules.sample_rate, rules.input) {
        Err(error) => {
            return Err(error);
        },
        Ok(()) => {},
    }
    let bytes: usize = match audio_sample_bytes(block.sample_count, rules.layout.channels) {
        Err(error) => {
            return Err(error);
        },
        Ok(bytes) => bytes,
    };
    let charge: NativeAudioCharge = match page.charge.checked_add(
        NativeAudioCharge { blocks: 1, samples: block.sample_count, bytes },
    ) {
        None => {
            return Err(NativeMasterError::BoundsExceeded);
        },
        Some(charge) => charge,
    };
    match page.next_sequence.checked_add(1) {
        None => Err(broken),
        Some(next_sequence) => Ok(
            ValidatedAudioPage { next_sample: end_sample, next_sequence, charge },
        ),
    }
}

/// What a page of blocks comes to that follows `start`.
pub open spec fn checked_blocks(
    rules: AudioPageRules,
    start: ValidatedAudioPage,
    blocks: Seq<AudioBlock>,
) -> Result<ValidatedAudioPage, NativeMasterError>
    decreases blocks.len(),
{
    if blocks.len() == 0 {
        Ok(start)
    } else {
        match checked_blocks(rules, start, blocks.drop_last()) {
            Err(error) => Err(error),
            Ok(page) => with_block(rules, page, blocks.last()),
        }
    }
}

/// A block that breaks the page breaks every longer page alike.
proof fn lemma_broken_blocks(
    rules: AudioPageRules,
    start: ValidatedAudioPage,
    blocks: Seq<AudioBlock>,
    count: int,
)
    requires
        0 <= count <= blocks.len(),
        checked_blocks(rules, start, blocks.take(count)) is Err,
    ensures
        checked_blocks(rules, start, blocks) == checked_blocks(rules, start, blocks.take(count)),
    decreases blocks.len() - count,
{
    if count == blocks.len() {
        assert(blocks.take(count) =~= blocks);
    } else {
        let longer = blocks.take(count + 1);
        assert(longer.drop_last() =~= blocks.take(count));
        lemma_broken_blocks(rules, start, blocks, count + 1);
    }
}

/// Where a page begins: nothing is in it.
pub open spec fn page_start(next_sample: u64, next_sequence: u64) -> ValidatedAudioPage {
    ValidatedAudioPage { next_sample, next_sequence, charge: NativeAudioCharge::zero() }
}

/// Whether every block states its time in ticks that have a length.
pub open spec fn blocks_are_timed(blocks: Seq<AudioBlock>) -> bool {
    forall|i: int|
        0 <= i < blocks.len() ==> (
        #[trigger] blocks[i]).timing.original.time_base.denominator > 0
}

/// Checks that blocks follow one another from `next_sample` and `next_sequence` on, and
/// counts them.
pub fn validate_audio_blocks(
    rules: AudioPageRules,
    blocks: &Vec<AudioBlock>,
    next_sample: u64,
    next_sequence: u64,
) -> (page: Result<ValidatedAudioPage, NativeMasterError>)
    requires
        rules.sample_rate > 0,
        blocks_are_timed(blocks@),
    ensures
        page == checked_blocks(rules, page_start(next_sample, next_sequence), blocks@),
{
    let ghost start = page_start(next_sample, next_sequence);
    let mut page: ValidatedAudioPage = ValidatedAudioPage {
        next_sample,
        next_sequence,
        charge: NativeAudioCharge { blocks: 0, samples: 0, bytes: 0 },
    };
    let mut i: usize = 0;
    assert(blocks@.take(0) =~= Seq::<AudioBlock>::empty());
    while i < blocks.len()
        invariant
            i <= blocks@.len(),
            start == page_start(next_sample, next_sequence),
            rules.sample_rate > 0,
            blocks_are_timed(blocks@),
            checked_blocks(rules, start, blocks@.take(i as int)) == Ok::<
                ValidatedAudioPage,
                NativeMasterError,
            >(page),
        decreases blocks@.len() - i,
    {
        assert(blocks@.take(i + 1).drop_last() =~= blocks@.take(i as int));
        assert(blocks@.take(i + 1).last() == blocks@[i as int]);
        match add_audio_block(rules, page, &blocks[i]) {
            Err(error) => {
                proof {
                    lemma_broken_blocks(rules, start, blocks@, i + 1);
                }
                return Err(error);
            },
            Ok(next) => {
                page = next;
            },
        }
        i = i + 1;
    }
    assert(blocks@.take(i as int) =~= blocks@);
    Ok(page)
}

/// The samples of blocks together.
pub open spec fn total_samples(blocks: Seq<AudioBlock>) -> int
    decreases blocks.len(),
{
    if blocks.len() == 0 {
        0
    } else {
        total_samples(blocks.drop_last()) + blocks.last().sample_count
    }
}

/// A page that holds moves the source on by exactly its samples and its blocks, and charges
/// exactly those.
pub proof fn page_moves_by_its_samples(
    rules: AudioPageRules,
    next_sample: u64,
    next_sequence: u64,
    blocks: Seq<AudioBlock>,
)
    ensures
        checked_blocks(rules, page_start(next_sample, next_sequence), blocks) matches Ok(page)
            ==> {
            &&& page.next_sample == next_sample + total_samples(blocks)
            &&& page.next_sequence == next_sequence + blocks.len()
            &&& page.charge.blocks == blocks.len()
            &&& page.charge.samples == total_samples(blocks)
        },
    decreases blocks.len(),
{
    if blocks.len() > 0 {
        page_moves_by_its_samples(rules, next_sample, next_sequence, blocks.drop_last());
    }
}

/// The rules of a page of a source, where it has a synchronizer.
pub open spec fn source_rules(
    input: InputId,
    source: NativeAudioSource,
    synchronizer: Synchronizer,
    clock_domain: ClockDomainId,
) -> AudioPageRules {
    AudioPageRules {
        input,
        sample_rate: synchronizer.source_rate,
        layout: synchronizer.layout,
        timeline_origin: source.timeline_origin,
        clock_domain,
    }
}

/// What a page of a source comes to, given whether its synchronizer would take it.
pub open spec fn checked_page(
    input: InputId,
    source: NativeAudioSource,
    blocks: Seq<AudioBlock>,
    clock_domain: ClockDomainId,
    admitted: Result<(), OutsideFailure>,
) -> Result<ValidatedAudioPage, NativeMasterError> {
    match source.synchronizer {
        None => Err(NativeMasterError::InvalidFormat),
        Some(synchronizer) => match checked_blocks(
            source_rules(input, source, synchronizer, clock_domain),
            page_start(source.next_sample, source.next_sequence),
            blocks,
        ) {
            Err(error) => Err(error),
            Ok(page) => match admitted {
                Err(error) => Err(NativeMasterError::Synchronizer(error)),
                Ok(()) => Ok(page),
            },
        },
    }
}

/// Checks a page of a source, given whether its synchronizer would take it.
pub fn validate_audio_page(
    input: InputId,
    source: &NativeAudioSource,
    blocks: &Vec<AudioBlock>,
    clock_domain: ClockDomainId,
    admitted: Result<(), OutsideFailure>,
) -> (page: Result<ValidatedAudioPage, NativeMasterError>)
    requires
        source.wf(),
        blocks_are_timed(blocks@),
    ensures
        page == checked_page(input, *source, blocks@, clock_domain, admitted),
{
    let synchronizer: Synchronizer = match source.synchronizer {
        None => {
            return Err(NativeMasterError::InvalidFormat);
        },
        Some(synchronizer) => synchronizer,
    };
    let page: ValidatedAudioPage = match validate_audio_blocks(
        AudioPageRules {
            input,
            sample_rate: synchronizer.source_rate,
            layout: synchronizer.layout,
            timeline_origin: source.timeline_origin,
            clock_domain,
        },
        blocks,
        source.next_sample,
        source.next_sequence,
    ) {
        Err(error) => {
            return Err(error);
        },
        Ok(page) => page,
    };
    match admitted {
        Err(error) => Err(NativeMasterError::Synchronizer(error)),
        Ok(()) => Ok(page),
    }
}

/// What the first page of a source comes to: its first block sets the rules.
pub open spec fn checked_initial_page(
    input: InputId,
    blocks: Seq<AudioBlock>,
    timeline_origin: AudioCadenceOrigin,
    source_origin_sample: u64,
    clock_domain: ClockDomainId,
) -> Result<ValidatedAudioPage, NativeMasterError> {
    if blocks.len() == 0 {
        Err(NativeMasterError::InvalidTimeline { input })
    } else {
        checked_blocks(
            AudioPageRules {
                input,
                sample_rate: blocks[0].sample_rate,
                layout: blocks[0].layout,
                timeline_origin,
                clock_domain,
            },
            page_start(source_origin_sample, blocks[0].timing.sequence),
            blocks,
        )
    }
}

/// Checks the first page of a source.
pub fn validate_initial_audio_page(
    input: InputId,
    blocks: &Vec<AudioBlock>,
    timeline_origin: AudioCadenceOrigin,
    source_origin_sample: u64,
    clock_domain: ClockDomainId,
) -> (page: Result<ValidatedAudioPage, NativeMasterError>)
    requires
        blocks@.len() > 0 ==> blocks@[0].sample_rate > 0,
        blocks_are_timed(blocks@),
    ensures
        page == checked_initial_page(
            input,
            blocks@,
            timeline_origin,
            source_origin_sample,
            clock_domain,
        ),
{
    if blocks.len() == 0 {
        return Err(NativeMasterError::InvalidTimeline { input });
    }
    let first: AudioBlock = blocks[0];
    validate_audio_blocks(
        AudioPageRules {
            input,
            sample_rate: first.sample_rate,
            layout: first.layout,
            timeline_origin,
            clock_domain,
        },
        blocks,
        source_origin_sample,
        first.timing.sequence,
    )
}

/// The source after a page, given what its synchronizer holds then.
pub open spec fn with_page(
    source: NativeAudioSource,
    page: ValidatedAudioPage,
    buffered: NativeAudioCharge,
) -> NativeAudioSource {
    NativeAudioSource {
        synchronizer: match source.synchronizer {
            Some(synchronizer) => Some(Synchronizer { buffered, ..synchronizer }),
            None => None,
        },
        next_sample: page.next_sample,
        next_sequence: page.next_sequence,
        ..source
    }
}

/// The source after a page has been pushed, given what pushing it came to.
pub open spec fn with_pushed_page(
    source: NativeAudioSource,
    page: ValidatedAudioPage,
    pushed: Result<NativeAudioCharge, OutsideFailure>,
) -> Result<NativeAudioSource, NativeMasterError> {
    match source.synchronizer {
        None => Err(NativeMasterError::InvalidFormat),
        Some(synchronizer) => match pushed {
            Err(error) => Err(NativeMasterError::Synchronizer(error)),
            Ok(buffered) => Ok(with_page(source, page, buffered)),
        },
    }
}

/// Moves a source on by a page that was pushed to its synchronizer. `pushed` tells what the
/// synchronizer holds then, or why it did not take the page.
pub fn commit_audio_page(
    source: &mut NativeAudioSource,
    page: ValidatedAudioPage,
    pushed: Result<NativeAudioCharge, OutsideFailure>,
) -> (committed: Result<(), NativeMasterError>)
    ensures
        match with_pushed_page(*old(source), page, pushed) {
            Ok(after) => committed is Ok && *final(source) == after,
            Err(error) => committed == Err::<(), NativeMasterError>(error) && *final(source)
                == *old(source),
        },
{
    let synchronizer: Synchronizer = match source.synchronizer {
        None => {
            return Err(NativeMasterError::InvalidFormat);
        },
        Some(synchronizer) => synchronizer,
    };
    match pushed {
        Err(error) => Err(NativeMasterError::Synchronizer(error)),
        Ok(buffered) => {
            source.synchronizer = Some(Synchronizer { buffered, ..synchronizer });
            source.next_sample = page.next_sample;
            source.next_sequence = page.next_sequence;
            Ok(())
        },
    }
}

/// Whether silence over these samples can be timed.
pub open spec fn silence_is_timed(synchronizer: Synchronizer, start: int, samples: int) -> bool {
    let rate = synchronizer.source_rate;
    &&& start + samples <= u64::MAX
    &&& start <= i64::MAX
    &&& audio_timing::boundary_fits(synchronizer.source_origin.sample_index as int, rate)
    &&& audio_timing::boundary_fits(start, rate)
    &&& audio_timing::boundary_fits(start + samples, rate)
    &&& i64::MIN <= audio_timing::time_of(synchronizer.source_origin, start, rate) <= i64::MAX
}

/// Silence over some samples of a source.
pub open spec fn silence_at(
    synchronizer: Synchronizer,
    start: u64,
    sequence: u64,
    samples: usize,
) -> AudioSilenceSpan {
    let rate = synchronizer.source_rate;
    AudioSilenceSpan {
        timing: MediaTiming {
            original: OriginalTimestamp {
                ticks: start as i64,
                time_base: TimeBase { numerator: 1, denominator: rate },
            },
            presentation_ns: audio_timing::time_of(
                synchronizer.source_origin,
                start as int,
                rate,
            ) as i64,
            duration_ns: (audio_timing::sample_boundary(start + samples, rate)
                - audio_timing::sample_boundary(start as int, rate)) as u64,
            sequence,
            clock_domain: synchronizer.source_domain,
        },
        samples,
    }
}

/// Makes silence over some samples of a source.
pub fn eos_silence_span(
    source: &NativeAudioSource,
    start_sample: u64,
    sequence: u64,
    samples: usize,
) -> (span: Result<AudioSilenceSpan, NativeMasterError>)
    requires
        source.wf(),
    ensures
        span == (match source.synchronizer {
            None => Err(NativeMasterError::InvalidFormat),
            Some(synchronizer) => if silence_is_timed(
                synchronizer,
                start_sample as int,
                samples as int,
            ) {
                Ok(silence_at(synchronizer, start_sample, sequence, samples))
            } else {
                Err(NativeMasterError::BoundsExceeded)
            },
        }),
{
    let synchronizer: Synchronizer = match source.synchronizer {
        None => {
            return Err(NativeMasterError::InvalidFormat);
        },
        Some(synchronizer) => synchronizer,
    };
    let rate: u32 = synchronizer.source_rate;
    let end_sample: u64 = match start_sample.checked_add(samples as u64) {
        None => {
            return Err(NativeMasterError::BoundsExceeded);
        },
        Some(end) => end,
    };
    let origin_boundary: i64 = match normalized_sample_endpoint(
        synchronizer.source_origin.sample_index as i128,
        rate,
    ) {
        None => {
            return Err(NativeMasterError::BoundsExceeded);
        },
        Some(boundary) => boundary,
    };
    let start_boundary: i64 = match normalized_sample_endpoint(start_sample as i128, rate) {
        None => {
            return Err(NativeMasterError::BoundsExceeded);
        },
        Some(boundary) => boundary,
    };
    let end_boundary: i64 = match normalized_sample_endpoint(end_sample as i128, rate) {
        None => {
            return Err(NativeMasterError::BoundsExceeded);
        },
        Some(boundary) => boundary,
    };
    proof {
        audio_timing::lemma_boundary_is_floor(
            synchronizer.source_origin.sample_index as int,
            rate,
        );
        audio_timing::lemma_boundary_is_floor(start_sample as int, rate);
        audio_timing::sample_boundaries_do_not_descend(
            start_sample as int,
            end_sample as int,
            rate,
        );
    }
    let start: i64 = match synchronizer.source_origin.timestamp_ns.checked_add(
        start_boundary - origin_boundary,
    ) {
        None => {
            return Err(NativeMasterError::BoundsExceeded);
        },
        Some(start) => start,
    };
    if start_sample > i64::MAX as u64 {
        return Err(NativeMasterError::BoundsExceeded);
    }
    Ok(
        AudioSilenceSpan {
            timing: MediaTiming {
                original: OriginalTimestamp {
                    ticks: start_sample as i64,
                    time_base: TimeBase { numerator: 1, denominator: rate },
                },
                presentation_ns: start,
                duration_ns: (end_boundary - start_boundary) as u64,
                sequence,
                clock_domain: synchronizer.source_domain,
            },
            samples,
        },
    )
}

/// Silence for one source that has ended, ready to be pushed.
#[derive(Debug)]
pub struct StagedAudioPadding {
    pub input: InputId,
    pub spans: Vec<AudioSilenceSpan>,
    pub page: ValidatedAudioPage,
}

/// What silence for a source comes to.
#[verifier::ext_equal]
pub struct PaddingModel {
    pub input: InputId,
    pub spans: Seq<AudioSilenceSpan>,
    pub page: ValidatedAudioPage,
}

impl View for StagedAudioPadding {
    type V = PaddingModel;

    open spec fn view(&self) -> PaddingModel {
        PaddingModel { input: self.input, spans: self.spans@, page: self.page }
    }
}

/// The longest silence that one span may hold.
pub open spec fn longest_span(limits: NativeAudioLimits, max_block_samples: usize) -> usize {
    if max_block_samples < limits.max_samples_per_page {
        max_block_samples
    } else {
        limits.max_samples_per_page
    }
}

/// How many samples the next span holds.
pub open spec fn span_length(longest: usize, required_sample: u64, next_sample: u64) -> int {
    if required_sample - next_sample + 1 < longest {
        required_sample - next_sample + 1
    } else {
        longest as int
    }
}

/// What the padding comes to with one span more.
pub open spec fn with_span(
    synchronizer: Synchronizer,
    longest: usize,
    required_sample: u64,
    room: int,
    page: ValidatedAudioPage,
) -> Result<(AudioSilenceSpan, ValidatedAudioPage), NativeMasterError> {
    let samples = span_length(longest, required_sample, page.next_sample);
    if page.charge.blocks >= room || required_sample - page.next_sample + 1 > u64::MAX || samples
        == 0 || !silence_is_timed(synchronizer, page.next_sample as int, samples)
        || audio_limits::sample_bytes(samples as usize, synchronizer.layout.channels) > usize::MAX
        || page.next_sequence == u64::MAX {
        Err(NativeMasterError::BoundsExceeded)
    } else {
        match page.charge.plus(
            NativeAudioCharge {
                blocks: 1,
                samples: samples as usize,
                bytes: audio_limits::sample_bytes(
                    samples as usize,
                    synchronizer.layout.channels,
                ) as usize,
            },
        ) {
            None => Err(NativeMasterError::BoundsExceeded),
            Some(charge) => Ok(
                (
                    silence_at(
                        synchronizer,
                        page.next_sample,
                        page.next_sequence,
                        samples as usize,
                    ),
                    ValidatedAudioPage {
                        next_sample: (page.next_sample + samples) as u64,
                        next_sequence: (page.next_sequence + 1) as u64,
                        charge,
                    },
                ),
            ),
        }
    }
}

/// The padding that reaches `required_sample`, from what has been padded already.
pub open spec fn padded(
    synchronizer: Synchronizer,
    longest: usize,
    required_sample: u64,
    room: int,
    page: ValidatedAudioPage,
    spans: Seq<AudioSilenceSpan>,
) -> Result<(Seq<AudioSilenceSpan>, ValidatedAudioPage), NativeMasterError>
    decreases required_sample - page.next_sample + 1,
{
    if page.next_sample > required_sample {
        Ok((spans, page))
    } else {
        match with_span(synchronizer, longest, required_sample, room, page) {
            Err(error) => Err(error),
            Ok((span, next)) => padded(
                synchronizer,
                longest,
                required_sample,
                room,
                next,
                spans.push(span),
            ),
        }
    }
}

/// The padding that a source needs to reach `required_sample`.
pub open spec fn padding(
    input: InputId,
    required_sample: u64,
    source: NativeAudioSource,
    limits: NativeAudioLimits,
    max_block_samples: usize,
    room: int,
) -> Result<PaddingModel, NativeMasterError> {
    match source.synchronizer {
        None => Err(NativeMasterError::InvalidFormat),
        Some(synchronizer) => match padded(
            synchronizer,
            longest_span(limits, max_block_samples),
            required_sample,
            room,
            page_start(source.next_sample, source.next_sequence),
            Seq::empty(),
        ) {
            Err(error) => Err(error),
            Ok((spans, page)) => Ok(PaddingModel { input, spans, page }),
        },
    }
}

/// Prepares silence for a source that has ended, up to and with `required_sample`, in at most
/// `room` spans. The source itself is left as it is.
pub fn stage_eos_padding_source(
    input: InputId,
    required_sample: u64,
    source: &NativeAudioSource,
    limits: NativeAudioLimits,
    max_block_samples: usize,
    room: usize,
) -> (staged: Result<StagedAudioPadding, NativeMasterError>)
    requires
        source.wf(),
    ensures
        match staged {
            Ok(staged) => padding(
                input,
                required_sample,
                *source,
                limits,
                max_block_samples,
                room as int,
            ) == Ok::<PaddingModel, NativeMasterError>(staged@),
            Err(error) => padding(
                input,
                required_sample,
                *source,
                limits,
                max_block_samples,
                room as int,
            ) == Err::<PaddingModel, NativeMasterError>(error),
        },
{
    let synchronizer: Synchronizer = match source.synchronizer {
        None => {
            return Err(NativeMasterError::InvalidFormat);
        },
        Some(synchronizer) => synchronizer,
    };
    let longest: usize = if max_block_samples < limits.max_samples_per_page {
        max_block_samples
    } else {
        limits.max_samples_per_page
    };
    let ghost whole = padded(
        synchronizer,
        longest,
        required_sample,
        room as int,
        page_start(source.next_sample, source.next_sequence),
        Seq::empty(),
    );
    let mut spans: Vec<AudioSilenceSpan> = Vec::new();
    let mut page: ValidatedAudioPage = ValidatedAudioPage {
        next_sample: source.next_sample,
        next_sequence: source.next_sequence,
        charge: NativeAudioCharge { blocks: 0, samples: 0, bytes: 0 },
    };
    assert(spans@ =~= Seq::<AudioSilenceSpan>::empty());
    while page.next_sample <= required_sample
        invariant
            source.wf(),
            source.synchronizer == Some(synchronizer),
            longest == longest_span(limits, max_block_samples),
            spans@.len() == page.charge.blocks,
            whole == padded(
                synchronizer,
                longest,
                required_sample,
                room as int,
                page,
                spans@,
            ),
            whole == padded(
                synchronizer,
                longest,
                required_sample,
                room as int,
                page_start(source.next_sample, source.next_sequence),
                Seq::empty(),
            ),
        decreases required_sample - page.next_sample + 1,
    {
        if spans.len() >= room {
            return Err(NativeMasterError::BoundsExceeded);
        }
        let remaining: u64 = match (required_sample - page.next_sample).checked_add(1) {
            None => {
                return Err(NativeMasterError::BoundsExceeded);
            },
            Some(remaining) => remaining,
        };
        let samples: usize = if remaining < longest as u64 {
            remaining as usize
        } else {
            longest
        };
        if samples == 0 {
            return Err(NativeMasterError::BoundsExceeded);
        }
        let span: AudioSilenceSpan = match eos_silence_span(
            source,
            page.next_sample,
            page.next_sequence,
            samples,
        ) {
            Err(error) => {
                return Err(error);
            },
            Ok(span) => span,
        };
        let bytes: usize = match audio_sample_bytes(samples, synchronizer.layout.channels) {
            Err(error) => {
                return Err(error);
            },
            Ok(bytes) => bytes,
        };
        let charge: NativeAudioCharge = match page.charge.checked_add(
            NativeAudioCharge { blocks: 1, samples, bytes },
        ) {
            None => {
                return Err(NativeMasterError::BoundsExceeded);
            },
            Some(charge) => charge,
        };
        let next_sample: u64 = match page.next_sample.checked_add(samples as u64) {
            None => {
                return Err(NativeMasterError::BoundsExceeded);
            },
            Some(next) => next,
        };
        let next_sequence: u64 = match page.next_sequence.checked_add(1) {
            None => {
                return Err(NativeMasterError::BoundsExceeded);
            },
            Some(next) => next,
        };
        spans.push(span);
        page = ValidatedAudioPage { next_sample, next_sequence, charge };
    }
    Ok(StagedAudioPadding { input, spans, page })
}

proof fn lemma_padded(
    synchronizer: Synchronizer,
    longest: usize,
    required_sample: u64,
    room: int,
    page: ValidatedAudioPage,
    spans: Seq<AudioSilenceSpan>,
)
    requires
        spans.len() == page.charge.blocks,
        page.charge.blocks <= room || page.next_sample <= required_sample,
    ensures
        padded(synchronizer, longest, required_sample, room, page, spans) matches Ok((all, last))
            ==> {
            &&& last.next_sample == (if page.next_sample > required_sample {
                page.next_sample as int
            } else {
                required_sample + 1
            })
            &&& last.charge.samples - page.charge.samples == last.next_sample - page.next_sample
            &&& last.next_sequence - page.next_sequence == last.charge.blocks - page.charge.blocks
            &&& all.len() == last.charge.blocks
            &&& last.charge.blocks <= room
        },
    decreases required_sample - page.next_sample + 1,
{
    if page.next_sample <= required_sample {
        match with_span(synchronizer, longest, required_sample, room, page) {
            Err(error) => {},
            Ok((span, next)) => {
                lemma_padded(
                    synchronizer,
                    longest,
                    required_sample,
                    room,
                    next,
                    spans.push(span),
                );
            },
        }
    }
}

/// Silence takes no more spans than there is room for, and charges one block for each.
pub proof fn padding_keeps_to_its_room(
    input: InputId,
    required_sample: u64,
    source: NativeAudioSource,
    limits: NativeAudioLimits,
    max_block_samples: usize,
    room: int,
)
    requires
        room >= 0,
    ensures
        padding(input, required_sample, source, limits, max_block_samples, room) matches Ok(staged)
            ==> staged.page.charge.blocks == staged.spans.len() && staged.spans.len() <= room,
{
    match source.synchronizer {
        None => {},
        Some(synchronizer) => {
            lemma_padded(
                synchronizer,
                longest_span(limits, max_block_samples),
                required_sample,
                room,
                page_start(source.next_sample, source.next_sequence),
                Seq::empty(),
            );
        },
    }
}

/// Silence after the end of a source reaches exactly the sample that is needed: no sample is
/// left out and none is added.
pub proof fn padding_reaches_exactly(
    input: InputId,
    required_sample: u64,
    source: NativeAudioSource,
    limits: NativeAudioLimits,
    max_block_samples: usize,
    room: int,
)
    requires
        source.next_sample <= required_sample,
    ensures
        padding(input, required_sample, source, limits, max_block_samples, room) matches Ok(staged)
            ==> {
            &&& staged.page.next_sample == required_sample + 1
            &&& staged.page.charge.samples == required_sample + 1 - source.next_sample
            &&& staged.page.next_sequence == source.next_sequence + staged.spans.len()
        },
{
    match source.synchronizer {
        None => {},
        Some(synchronizer) => {
            lemma_padded(
                synchronizer,
                longest_span(limits, max_block_samples),
                required_sample,
                room,
                page_start(source.next_sample, source.next_sequence),
                Seq::empty(),
            );
        },
    }
}

/// Whether a span lies right behind another: its first sample, its time and its sequence follow
/// on those of the other.
pub open spec fn lies_behind(before: AudioSilenceSpan, after: AudioSilenceSpan) -> bool {
    &&& after.timing.original.ticks == before.timing.original.ticks + before.samples
    &&& after.timing.presentation_ns == before.timing.presentation_ns + before.timing.duration_ns
    &&& after.timing.sequence == before.timing.sequence + 1
}

/// Whether spans lie back to back from a sample and a sequence on, none of them empty or too
/// long.
pub open spec fn back_to_back(
    spans: Seq<AudioSilenceSpan>,
    longest: usize,
    first_sample: u64,
    first_sequence: u64,
) -> bool {
    &&& spans.len() > 0 ==> spans[0].timing.original.ticks == first_sample
        && spans[0].timing.sequence == first_sequence
    &&& forall|k: int| 0 <= k < spans.len() ==> 0 < (#[trigger] spans[k]).samples <= longest
    &&& forall|k: int, l: int|
        0 <= k && l == k + 1 && l < spans.len() ==> lies_behind(
            #[trigger] spans[k],
            #[trigger] spans[l],
        )
}

/// Whether a page goes on right behind spans that lie back to back.
spec fn goes_on_behind(
    synchronizer: Synchronizer,
    longest: usize,
    first_sample: u64,
    first_sequence: u64,
    page: ValidatedAudioPage,
    spans: Seq<AudioSilenceSpan>,
) -> bool {
    &&& back_to_back(spans, longest, first_sample, first_sequence)
    &&& if spans.len() == 0 {
        page.next_sample == first_sample && page.next_sequence == first_sequence
    } else {
        let last = spans.last();
        &&& last.timing.original.ticks + last.samples == page.next_sample
        &&& last.timing.sequence + 1 == page.next_sequence
        &&& last.timing.presentation_ns + last.timing.duration_ns == audio_timing::time_of(
            synchronizer.source_origin,
            page.next_sample as int,
            synchronizer.source_rate,
        )
    }
}

proof fn lemma_span_behind(
    synchronizer: Synchronizer,
    longest: usize,
    required_sample: u64,
    room: int,
    first_sample: u64,
    first_sequence: u64,
    page: ValidatedAudioPage,
    spans: Seq<AudioSilenceSpan>,
)
    requires
        page.next_sample <= required_sample,
        goes_on_behind(synchronizer, longest, first_sample, first_sequence, page, spans),
    ensures
        with_span(synchronizer, longest, required_sample, room, page) matches Ok((span, next))
            ==> goes_on_behind(
            synchronizer,
            longest,
            first_sample,
            first_sequence,
            next,
            spans.push(span),
        ),
{
    if let Ok((span, next)) = with_span(synchronizer, longest, required_sample, room, page) {
        let rate = synchronizer.source_rate;
        let samples = span_length(longest, required_sample, page.next_sample);
        let start = page.next_sample as int;
        assert(0 < samples <= longest);
        audio_timing::lemma_boundary_is_floor(start, rate);
        audio_timing::sample_boundaries_do_not_descend(start, start + samples, rate);
        let after = spans.push(span);
        assert(span == silence_at(
            synchronizer,
            page.next_sample,
            page.next_sequence,
            samples as usize,
        ));
        assert forall|k: int| 0 <= k < after.len() implies 0 < (#[trigger] after[k]).samples
            <= longest by {
            if k < spans.len() {
                assert(after[k] == spans[k]);
            }
        }
        assert forall|k: int, l: int| 0 <= k && l == k + 1 && l < after.len() implies lies_behind(
            #[trigger] after[k],
            #[trigger] after[l],
        ) by {
            assert(after[k] == spans[k]);
            if l < spans.len() {
                assert(after[l] == spans[l]);
            } else {
                assert(spans.last() == after[k]);
            }
        }
        if spans.len() > 0 {
            assert(after[0] == spans[0]);
        }
    }
}

proof fn lemma_padded_back_to_back(
    synchronizer: Synchronizer,
    longest: usize,
    required_sample: u64,
    room: int,
    first_sample: u64,
    first_sequence: u64,
    page: ValidatedAudioPage,
    spans: Seq<AudioSilenceSpan>,
)
    requires
        goes_on_behind(synchronizer, longest, first_sample, first_sequence, page, spans),
    ensures
        padded(synchronizer, longest, required_sample, room, page, spans) matches Ok((all, last))
            ==> goes_on_behind(
            synchronizer,
            longest,
            first_sample,
            first_sequence,
            last,
            all,
        ),
    decreases required_sample - page.next_sample + 1,
{
    if page.next_sample <= required_sample {
        lemma_span_behind(
            synchronizer,
            longest,
            required_sample,
            room,
            first_sample,
            first_sequence,
            page,
            spans,
        );
        match with_span(synchronizer, longest, required_sample, room, page) {
            Err(_) => {},
            Ok((span, next)) => {
                lemma_padded_back_to_back(
                    synchronizer,
                    longest,
                    required_sample,
                    room,
                    first_sample,
                    first_sequence,
                    next,
                    spans.push(span),
                );
            },
        }
    }
}

/// Silence after the end of a source begins where the source ends and lies back to back, with
/// rising sequences: each span begins with the sample, at the time and under the sequence that
/// come after the one before.
pub proof fn silence_lies_back_to_back(
    input: InputId,
    required_sample: u64,
    source: NativeAudioSource,
    limits: NativeAudioLimits,
    max_block_samples: usize,
    room: int,
)
    ensures
        padding(input, required_sample, source, limits, max_block_samples, room) matches Ok(staged)
            ==> back_to_back(
            staged.spans,
            longest_span(limits, max_block_samples),
            source.next_sample,
            source.next_sequence,
        ),
{
    match source.synchronizer {
        None => {},
        Some(synchronizer) => {
            lemma_padded_back_to_back(
                synchronizer,
                longest_span(limits, max_block_samples),
                required_sample,
                room,
                source.next_sample,
                source.next_sequence,
                page_start(source.next_sample, source.next_sequence),
                Seq::empty(),
            );
        },
    }
}

} // verus!
