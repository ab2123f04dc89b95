//! How sources are checked and opened, and what their rings begin with.
use vstd::prelude::*;

use crate::model::{ClockDomainId, InputId, OutsideFailure};
use crate::ordered;
use crate::source;
use crate::source::{
    NativeResolvedSource, NativeSourceError, NativeSourceLimits, NativeSourcePreflightError,
    VideoFrame,
};
use crate::source_opening;
use crate::source_opening::{PreflightEvent, PreflightStageModel, SourceSetting};
use crate::source_registry;
use crate::source_registry::{
    DecodedVideoWindow, PrefixModel, PreflightModel, WorkingFrame,
};

verus! {

proof fn lemma_local_video(sources: Seq<NativeResolvedSource>)
    ensures
        source::first_local_video(sources) is None <==> forall|i: int|
            0 <= i < sources.len() ==> !((#[trigger] sources[i]) is LocalVideo),
        source::first_local_video(sources) matches Some(input) ==> exists|i: int|
            #![trigger sources[i]]
            0 <= i < sources.len() && sources[i] is LocalVideo && sources[i].source_input()
                == input,
    decreases sources.len(),
{
    if sources.len() > 0 {
        let rest = sources.drop_last();
        lemma_local_video(rest);
        assert(sources[sources.len() - 1] == sources.last());
        if let Some(input) = source::first_local_video(rest) {
            let i = choose|i: int|
                #![trigger rest[i]]
                0 <= i < rest.len() && rest[i] is LocalVideo && rest[i].source_input() == input;
            assert(sources[i] == rest[i]);
        } else {
            assert forall|i: int| 0 <= i < rest.len() implies !((#[trigger] sources[i])
                is LocalVideo) by {
                assert(sources[i] == rest[i]);
            }
        }
    }
}

/// Sources may be opened exactly where there are not too many, no input is named twice, and
/// there is an adapter for every file.
pub proof fn sources_may_be_opened(
    sources: Seq<NativeResolvedSource>,
    has_adapter: bool,
    maximum: usize,
)
    ensures
        source::checked_sources(sources, has_adapter, maximum) is Ok <==> {
            &&& sources.len() <= maximum
            &&& forall|i: int, j: int|
                0 <= i < j < sources.len() ==> (#[trigger] sources[i]).source_input() != (
                #[trigger] sources[j]).source_input()
            &&& has_adapter || forall|i: int|
                0 <= i < sources.len() ==> !((#[trigger] sources[i]) is LocalVideo)
        },
{
    let inputs = source::resolved_inputs(sources);
    source::lemma_no_duplicate(inputs);
    lemma_local_video(sources);
    if inputs.no_duplicates() {
        assert forall|i: int, j: int| 0 <= i < j < sources.len() implies (
        #[trigger] sources[i]).source_input() != (#[trigger] sources[j]).source_input() by {
            assert(inputs[i] != inputs[j]);
        }
    }
    if forall|i: int, j: int|
        0 <= i < j < sources.len() ==> (#[trigger] sources[i]).source_input() != (
        #[trigger] sources[j]).source_input() {
        assert forall|i: int, j: int|
            0 <= i < inputs.len() && 0 <= j < inputs.len() && i != j implies inputs[i]
            != inputs[j] by {
            if i < j {
                assert(sources[i].source_input() != sources[j].source_input());
            } else {
                assert(sources[j].source_input() != sources[i].source_input());
            }
        }
    }
}

/// How many frames sources hold together.
pub open spec fn frames_together(sources: Seq<(InputId, u32, u32, usize)>) -> nat
    decreases sources.len(),
{
    if sources.len() == 0 {
        0
    } else {
        frames_together(sources.drop_last()) + sources.last().3 as nat
    }
}

/// Whether sources are all of one size, and each has frames but not too many.
pub open spec fn are_of_size(
    sources: Seq<(InputId, u32, u32, usize)>,
    width: u32,
    height: u32,
    limits: NativeSourceLimits,
) -> bool {
    forall|i: int|
        #![trigger sources[i]]
        0 <= i < sources.len() ==> sources[i].1 == width && sources[i].2 == height && 0
            < sources[i].3 <= limits.max_video_frames_per_source
}

proof fn lemma_charging(sources: Seq<(InputId, u32, u32, usize)>, limits: NativeSourceLimits)
    ensures
        source::charged_sources(sources, limits) matches Ok((dimensions, bytes)) ==> {
            &&& dimensions is None <==> sources.len() == 0
            &&& sources.len() == 0 ==> bytes == 0
            &&& dimensions matches Some((width, height)) ==> are_of_size(
                sources,
                width,
                height,
                limits,
            ) && bytes == width * height * 8 * frames_together(sources) && bytes
                <= limits.max_retained_rgba16f_bytes
        },
    decreases sources.len(),
{
    if sources.len() > 0 {
        let rest = sources.drop_last();
        lemma_charging(rest, limits);
        if let Ok((dimensions, bytes)) = source::charged_sources(sources, limits) {
            let (width, height) = dimensions->Some_0;
            let (_, before) = source::charged_sources(rest, limits)->Ok_0;
            let picture = width * height * 8;
            let frames = frames_together(rest) as int;
            let count = sources.last().3 as int;
            assert(picture * frames + picture * count == picture * (frames + count))
                by (nonlinear_arith);
            assert(rest.len() == 0 ==> frames == 0);
            assert forall|i: int| #![trigger sources[i]] 0 <= i < sources.len() implies
                sources[i].1 == width && sources[i].2 == height && 0 < sources[i].3
                <= limits.max_video_frames_per_source by {
                if i < rest.len() {
                    assert(sources[i] == rest[i]);
                }
            }
        }
    }
}

/// Sources that are taken together are of one size, each has frames but not too many, no input
/// is named twice, and their frames are charged by the bytes of their pixels, within the bound.
pub proof fn sources_are_charged_for_their_frames(
    sources: Seq<(InputId, u32, u32, usize)>,
    limits: NativeSourceLimits,
    dimensions: Option<(u32, u32)>,
    bytes: u64,
)
    requires
        source::checked_layouts(sources, limits) == Ok::<
            (Option<(u32, u32)>, u64),
            NativeSourceError,
        >((dimensions, bytes)),
    ensures
        sources.len() <= limits.max_media_inputs,
        forall|i: int, j: int|
            0 <= i < j < sources.len() ==> (#[trigger] sources[i]).0 != (#[trigger] sources[j]).0,
        dimensions is None <==> sources.len() == 0,
        dimensions is None ==> bytes == 0,
        dimensions matches Some((width, height)) ==> are_of_size(sources, width, height, limits)
            && bytes == width * height * 8 * frames_together(sources) && bytes
            <= limits.max_retained_rgba16f_bytes,
{
    let inputs = source::layout_inputs(sources);
    source::lemma_no_duplicate(inputs);
    lemma_charging(sources, limits);
    assert forall|i: int, j: int| 0 <= i < j < sources.len() implies (#[trigger] sources[i]).0 != (
    #[trigger] sources[j]).0 by {
        assert(inputs[i] != inputs[j]);
    }
}

proof fn lemma_charging_succeeds(
    sources: Seq<(InputId, u32, u32, usize)>,
    limits: NativeSourceLimits,
    width: u32,
    height: u32,
)
    requires
        are_of_size(sources, width, height, limits),
        width * height * 8 * frames_together(sources) <= limits.max_retained_rgba16f_bytes,
    ensures
        source::charged_sources(sources, limits) is Ok,
    decreases sources.len(),
{
    if sources.len() > 0 {
        let rest = sources.drop_last();
        let picture = width * height * 8;
        let frames = frames_together(rest) as int;
        let count = sources.last().3 as int;
        assert(sources[sources.len() - 1] == sources.last());
        assert(picture * (frames + count) == picture * frames + picture * count)
            by (nonlinear_arith);
        assert(picture >= 0) by (nonlinear_arith)
            requires
                picture == width * height * 8,
        ;
        assert(0 <= picture * frames && picture <= picture * count) by (nonlinear_arith)
            requires
                picture >= 0,
                frames >= 0,
                count >= 1,
        ;
        assert(are_of_size(rest, width, height, limits)) by {
            assert forall|i: int| #![trigger rest[i]] 0 <= i < rest.len() implies rest[i].1 == width
                && rest[i].2 == height && 0 < rest[i].3 <= limits.max_video_frames_per_source by {
                assert(rest[i] == sources[i]);
            }
        }
        lemma_charging_succeeds(rest, limits, width, height);
        lemma_charging(rest, limits);
        if rest.len() > 0 {
            assert(rest[0] == sources[0]);
        }
    }
}

/// Sources are taken together wherever there are not too many, no input is named twice, all are
/// of one size, and their frames keep to the bounds.
pub proof fn sources_that_keep_to_the_bounds_are_taken(
    sources: Seq<(InputId, u32, u32, usize)>,
    limits: NativeSourceLimits,
    width: u32,
    height: u32,
)
    requires
        sources.len() <= limits.max_media_inputs,
        forall|i: int, j: int|
            0 <= i < j < sources.len() ==> (#[trigger] sources[i]).0 != (#[trigger] sources[j]).0,
        are_of_size(sources, width, height, limits),
        width * height * 8 * frames_together(sources) <= limits.max_retained_rgba16f_bytes,
    ensures
        source::checked_layouts(sources, limits) is Ok,
{
    let inputs = source::layout_inputs(sources);
    source::lemma_no_duplicate(inputs);
    assert forall|i: int, j: int|
        0 <= i < inputs.len() && 0 <= j < inputs.len() && i != j implies inputs[i]
        != inputs[j] by {
        if i < j {
            assert(sources[i].0 != sources[j].0);
        } else {
            assert(sources[j].0 != sources[i].0);
        }
    }
    lemma_charging_succeeds(sources, limits, width, height);
}

/// Whether a frame goes on behind another: later, with the next sequence, and on the same clock.
pub open spec fn goes_on_behind(frame: VideoFrame, before: VideoFrame) -> bool {
    &&& frame.timing.presentation_ns > before.timing.presentation_ns
    &&& frame.timing.sequence == before.timing.sequence + 1
    &&& frame.timing.clock_domain == before.timing.clock_domain
}

/// The frames of a page each go on behind the one before, and the first behind what came before
/// the page.
pub proof fn frames_of_a_page_go_on(
    frames: Seq<VideoFrame>,
    origin: i64,
    previous: Option<i64>,
    expected_sequence: u64,
    clock_domain: ClockDomainId,
    i: int,
)
    requires
        source::is_page_timeline(frames, origin, previous, expected_sequence, clock_domain),
        0 <= i < frames.len(),
    ensures
        frames[0].timing.sequence == expected_sequence,
        frames[i].timing.clock_domain == clock_domain,
        frames[i].timing.presentation_ns >= origin,
        previous matches Some(last) ==> last < frames[0].timing.presentation_ns,
        i > 0 ==> goes_on_behind(frames[i], frames[i - 1]),
        ({
            let offsets = source::offsets_from(source::frame_timestamps(frames), origin);
            &&& offsets.len() == frames.len()
            &&& origin + offsets[i] == frames[i].timing.presentation_ns
        }),
{
    let timestamps = source::frame_timestamps(frames);
    let sequences = source::frame_sequences(frames);
    assert(sequences[0] == expected_sequence + 0);
    assert(sequences[i] == expected_sequence + i);
    assert(timestamps[i] - origin >= 0);
    if i > 0 {
        assert(sequences[i - 1] == expected_sequence + (i - 1));
        assert(timestamps[i - 1] < timestamps[i]);
        assert(frames[i - 1].timing.clock_domain == clock_domain);
    }
}

/// A page with one frame more is a page exactly where the frame goes on behind it.
pub proof fn pages_go_on_frame_by_frame(
    frames: Seq<VideoFrame>,
    frame: VideoFrame,
    origin: i64,
    previous: Option<i64>,
    expected_sequence: u64,
    clock_domain: ClockDomainId,
)
    requires
        source::is_page_timeline(frames, origin, previous, expected_sequence, clock_domain),
    ensures
        source::is_page_timeline(
            frames.push(frame),
            origin,
            previous,
            expected_sequence,
            clock_domain,
        ) <==> goes_on_behind(frame, frames.last()),
{
    let longer = frames.push(frame);
    let timestamps = source::frame_timestamps(longer);
    let sequences = source::frame_sequences(longer);
    let last = frames.len() - 1;
    assert(frames[last].timing.clock_domain == clock_domain);
    assert(source::frame_sequences(frames)[last] == expected_sequence + last);
    assert(source::frame_timestamps(frames)[last] - origin >= 0);
    if goes_on_behind(frame, frames.last()) {
        assert forall|i: int| 0 <= i < longer.len() implies (
        #[trigger] longer[i]).timing.clock_domain == clock_domain by {
            if i < frames.len() {
                assert(frames[i].timing.clock_domain == clock_domain);
            }
        }
        assert forall|i: int, j: int| 0 <= i < j < timestamps.len() implies
            #[trigger] timestamps[i] < #[trigger] timestamps[j] by {
            let before = source::frame_timestamps(frames);
            assert(timestamps[i] == before[i]);
            if j < frames.len() {
                assert(timestamps[j] == before[j]);
            } else if i < last {
                assert(before[i] < before[last]);
            }
        }
        assert forall|i: int| 0 <= i < timestamps.len() implies 0 <= #[trigger] timestamps[i]
            - origin <= u64::MAX by {
            if i < frames.len() {
                assert(timestamps[i] == source::frame_timestamps(frames)[i]);
            }
        }
        assert forall|i: int| 0 <= i < sequences.len() implies #[trigger] sequences[i]
            == expected_sequence + i by {
            if i < frames.len() {
                assert(sequences[i] == source::frame_sequences(frames)[i]);
            }
        }
        assert(timestamps[0] == source::frame_timestamps(frames)[0]);
    }
    if source::is_page_timeline(longer, origin, previous, expected_sequence, clock_domain) {
        frames_of_a_page_go_on(
            longer,
            origin,
            previous,
            expected_sequence,
            clock_domain,
            frames.len() as int,
        );
    }
}

/// One frame is a page exactly where it has the sequence and the clock that are due, and does not
/// come before the origin or before what came before.
pub proof fn one_frame_may_be_a_page(
    frame: VideoFrame,
    origin: i64,
    previous: Option<i64>,
    expected_sequence: u64,
    clock_domain: ClockDomainId,
)
    ensures
        source::is_page_timeline(seq![frame], origin, previous, expected_sequence, clock_domain)
            <==> {
            &&& frame.timing.sequence == expected_sequence
            &&& frame.timing.clock_domain == clock_domain
            &&& frame.timing.presentation_ns >= origin
            &&& previous matches Some(last) ==> last < frame.timing.presentation_ns
        },
{
    let frames = seq![frame];
    let timestamps = source::frame_timestamps(frames);
    let sequences = source::frame_sequences(frames);
    assert(frames[0] == frame);
    assert(timestamps[0] == frame.timing.presentation_ns);
    assert(sequences[0] == frame.timing.sequence);
    if source::is_page_timeline(frames, origin, previous, expected_sequence, clock_domain) {
        frames_of_a_page_go_on(frames, origin, previous, expected_sequence, clock_domain, 0);
    }
}

/// A file is taken with the frames that were decoded of it, from the first on: as many as were
/// asked for, or all that there are. They are shown as long after the first as they say.
pub proof fn files_begin_with_their_first_frames(
    input: InputId,
    window: Result<DecodedVideoWindow, OutsideFailure>,
    clock_domain: ClockDomainId,
    limits: NativeSourceLimits,
    checked: PreflightModel,
    i: int,
)
    requires
        source_registry::checked_local_video(input, window, clock_domain, limits) == Ok::<
            PreflightModel,
            NativeSourcePreflightError,
        >(checked),
        0 <= i < checked.frames.len(),
    ensures
        window matches Ok(brought) && {
            let frames = brought.frames@;
            &&& checked.frames == frames
            &&& checked.end_of_stream == brought.end_of_stream
            &&& frames.len() <= limits.max_video_frames_per_source
            &&& frames.len() < limits.max_video_frames_per_source ==> brought.end_of_stream
            &&& frames[0].timing.sequence == 0
            &&& i > 0 ==> goes_on_behind(frames[i], frames[i - 1])
            &&& checked.offsets_ns.len() == frames.len()
            &&& checked.offsets_ns[i] == frames[i].timing.presentation_ns
                - frames[0].timing.presentation_ns
            &&& checked.source_pts_origin == frames[0].timing.presentation_ns
            &&& checked.last_source_pts == frames[frames.len() - 1].timing.presentation_ns
            &&& checked.last_sequence == frames[frames.len() - 1].timing.sequence
            &&& frames[0].timing.clock_domain == clock_domain
        },
        checked.input == input,
        checked.clock_domain == clock_domain,
        checked.kind is Decoded,
{
    let frames = window->Ok_0.frames@;
    let origin = frames[0].timing.presentation_ns;
    frames_of_a_page_go_on(frames, origin, None, 0, clock_domain, i);
    frames_of_a_page_go_on(frames, origin, None, 0, clock_domain, 0);
}

/// A file is refused only where its decoder failed or brought fewer frames than it has, or where
/// its frames do not go on.
pub proof fn files_whose_frames_go_on_are_taken(
    input: InputId,
    window: DecodedVideoWindow,
    clock_domain: ClockDomainId,
    limits: NativeSourceLimits,
)
    requires
        0 < window.frames@.len() <= limits.max_video_frames_per_source,
        window.end_of_stream || window.frames@.len() == limits.max_video_frames_per_source,
        window.frames@[0].timing.sequence == 0,
        window.frames@[0].timing.clock_domain == clock_domain,
        forall|i: int|
            #![trigger window.frames@[i]]
            0 < i < window.frames@.len() ==> goes_on_behind(
                window.frames@[i],
                window.frames@[i - 1],
            ),
    ensures
        source_registry::checked_local_video(input, Ok(window), clock_domain, limits) is Ok,
{
    lemma_page_grows(window.frames@, clock_domain, window.frames@.len() as int);
    assert(window.frames@.take(window.frames@.len() as int) =~= window.frames@);
}

proof fn lemma_page_grows(frames: Seq<VideoFrame>, clock_domain: ClockDomainId, count: int)
    requires
        0 < count <= frames.len(),
        frames[0].timing.sequence == 0,
        frames[0].timing.clock_domain == clock_domain,
        forall|i: int|
            #![trigger frames[i]]
            0 < i < frames.len() ==> goes_on_behind(frames[i], frames[i - 1]),
    ensures
        source::is_page_timeline(
            frames.take(count),
            frames[0].timing.presentation_ns,
            None,
            0,
            clock_domain,
        ),
    decreases count,
{
    let origin = frames[0].timing.presentation_ns;
    if count == 1 {
        one_frame_may_be_a_page(frames[0], origin, None, 0, clock_domain);
        assert(frames.take(1) =~= seq![frames[0]]);
    } else {
        lemma_page_grows(frames, clock_domain, count - 1);
        pages_go_on_frame_by_frame(
            frames.take(count - 1),
            frames[count - 1],
            origin,
            None,
            0,
            clock_domain,
        );
        assert(frames.take(count) =~= frames.take(count - 1).push(frames[count - 1]));
        assert(goes_on_behind(frames[count - 1], frames[count - 2]));
    }
}

/// Whether a source is made of one frame that is shown from the begin.
pub open spec fn is_single(checked: PreflightModel, input: InputId, frame: VideoFrame) -> bool {
    &&& checked.input == input
    &&& checked.frames.len() == 1
    &&& checked.frames[0] == frame
    &&& checked.offsets_ns.len() == 1
    &&& checked.offsets_ns[0] == 0
    &&& checked.source_pts_origin == frame.timing.presentation_ns
    &&& checked.last_source_pts == frame.timing.presentation_ns
    &&& checked.last_sequence == frame.timing.sequence
    &&& checked.clock_domain == frame.timing.clock_domain
}

/// A frame that is shown for good makes a source that has ended. A frame of a live source makes
/// one that goes on, on the clock of that frame.
pub proof fn single_frames_make_sources(input: InputId, frame: VideoFrame, clock_domain: ClockDomainId)
    ensures
        ({
            let kept = source_registry::checked_retained_frame(input, frame, clock_domain);
            &&& kept is Ok <==> (frame.timing.duration_ns > 0 && frame.timing.clock_domain
                == clock_domain && frame.timing.sequence == 0)
            &&& kept matches Ok(checked) ==> is_single(checked, input, frame) && checked.kind
                is Retained && checked.end_of_stream
        }),
        ({
            let live = source_registry::checked_live_frame(input, frame);
            &&& live is Ok <==> frame.timing.duration_ns > 0
            &&& live matches Ok(checked) ==> is_single(checked, input, frame) && checked.kind
                is Live && !checked.end_of_stream
        }),
{
}

/// A frame of a live source follows on another only on the same clock, later and with a larger
/// sequence: no frame follows on one that follows on it.
pub proof fn live_frames_go_forward(
    frame: VideoFrame,
    previous_pts: i64,
    previous_sequence: u64,
    clock_domain: ClockDomainId,
)
    ensures
        source::follows_live(frame, previous_pts, previous_sequence, clock_domain) <==> {
            &&& frame.timing.clock_domain == clock_domain
            &&& previous_pts < frame.timing.presentation_ns
            &&& previous_sequence < frame.timing.sequence
            &&& 0 < frame.timing.duration_ns
        },
{
}

/// Whether every frame of a source has one size.
pub open spec fn frames_are_of_size(frames: Seq<VideoFrame>, width: u32, height: u32) -> bool {
    forall|i: int|
        #![trigger frames[i]]
        0 <= i < frames.len() ==> frames[i].width == width && frames[i].height == height
}

proof fn lemma_misfit(frames: Seq<VideoFrame>, width: u32, height: u32)
    ensures
        source_registry::first_misfit(frames, width, height) is None <==> frames_are_of_size(
            frames,
            width,
            height,
        ),
    decreases frames.len(),
{
    if frames.len() > 0 {
        let rest = frames.drop_last();
        lemma_misfit(rest, width, height);
        assert(frames[frames.len() - 1] == frames.last());
        if frames_are_of_size(rest, width, height) && frames.last().width == width
            && frames.last().height == height {
            assert forall|i: int| #![trigger frames[i]] 0 <= i < frames.len() implies
                frames[i].width == width && frames[i].height == height by {
                if i < rest.len() {
                    assert(frames[i] == rest[i]);
                }
            }
        }
        if frames_are_of_size(frames, width, height) {
            assert forall|i: int| #![trigger rest[i]] 0 <= i < rest.len() implies rest[i].width
                == width && rest[i].height == height by {
                assert(rest[i] == frames[i]);
            }
        }
    }
}

proof fn lemma_layouts(ready: Seq<PreflightModel>)
    requires
        forall|i: int| 0 <= i < ready.len() ==> (#[trigger] ready[i]).frames.len() <= usize::MAX,
    ensures
        source_registry::source_layouts(ready) matches Ok(layouts) ==> {
            &&& layouts.len() == ready.len()
            &&& forall|i: int|
                #![trigger layouts[i]]
                0 <= i < ready.len() ==> layouts[i].0 == ready[i].input && layouts[i].3
                    == ready[i].frames.len() && frames_are_of_size(
                    ready[i].frames,
                    layouts[i].1,
                    layouts[i].2,
                )
        },
    decreases ready.len(),
{
    if ready.len() > 0 {
        let rest = ready.drop_last();
        assert forall|i: int| 0 <= i < rest.len() implies (#[trigger] rest[i]).frames.len()
            <= usize::MAX by {
            assert(rest[i] == ready[i]);
        }
        lemma_layouts(rest);
        let last = ready.last();
        lemma_misfit(last.frames, last.frames[0].width, last.frames[0].height);
        if let Ok(layouts) = source_registry::source_layouts(ready) {
            let before = source_registry::source_layouts(rest)->Ok_0;
            assert(ready[ready.len() - 1] == last);
            assert forall|i: int| #![trigger layouts[i]] 0 <= i < ready.len() implies layouts[i].0
                == ready[i].input && layouts[i].3 == ready[i].frames.len() && frames_are_of_size(
                ready[i].frames,
                layouts[i].1,
                layouts[i].2,
            ) by {
                if i < rest.len() {
                    assert(layouts[i] == before[i]);
                    assert(rest[i] == ready[i]);
                }
            }
        }
    }
}

/// Sources that are admitted show frames of one size only, and no two are of one input.
pub proof fn all_frames_are_of_one_size(
    ready: Seq<PreflightModel>,
    limits: NativeSourceLimits,
    dimensions: Option<(u32, u32)>,
    bytes: u64,
    i: int,
    j: int,
)
    requires
        forall|k: int| 0 <= k < ready.len() ==> (#[trigger] ready[k]).frames.len() <= usize::MAX,
        source_registry::admitted(ready, limits) == Ok::<
            (Option<(u32, u32)>, u64),
            NativeSourceError,
        >((dimensions, bytes)),
        0 <= i < j < ready.len(),
    ensures
        dimensions matches Some((width, height)) && frames_are_of_size(
            ready[i].frames,
            width,
            height,
        ) && frames_are_of_size(ready[j].frames, width, height),
        0 < ready[i].frames.len() <= limits.max_video_frames_per_source,
        0 < ready[j].frames.len() <= limits.max_video_frames_per_source,
        ready[i].input != ready[j].input,
        ready.len() <= limits.max_media_inputs,
        bytes <= limits.max_retained_rgba16f_bytes,
{
    lemma_layouts(ready);
    let layouts = source_registry::source_layouts(ready)->Ok_0;
    sources_are_charged_for_their_frames(layouts, limits, dimensions, bytes);
    assert(layouts[i].0 != layouts[j].0);
    assert(layouts[i].0 == ready[i].input);
    assert(layouts[j].0 == ready[j].input);
}

/// Whether a ring begins with frames as they were uploaded: all that is known of them is kept,
/// nothing is asked for, and no Stinger has it.
pub open spec fn begins_with(
    ring: PrefixModel,
    checked: PreflightModel,
    frames: Seq<WorkingFrame>,
) -> bool {
    &&& ring.frames == frames
    &&& ring.offsets_ns == checked.offsets_ns
    &&& ring.source_pts_origin == checked.source_pts_origin
    &&& ring.last_source_pts == checked.last_source_pts
    &&& ring.last_sequence == checked.last_sequence
    &&& ring.clock_domain == checked.clock_domain
    &&& ring.kind == checked.kind
    &&& ring.end_of_stream == checked.end_of_stream
    &&& ring.in_flight is None
    &&& !ring.available_for_stinger
    &&& !ring.pinned_for_stinger
}

/// Every ring begins with the frames that were uploaded for its own source.
pub proof fn rings_begin_with_their_uploads(
    ready: Seq<PreflightModel>,
    uploads: Seq<Seq<WorkingFrame>>,
    i: int,
)
    requires
        0 <= i < ready.len(),
        forall|a: int, b: int|
            0 <= a < b < ready.len() ==> (#[trigger] ready[a]).input != (#[trigger] ready[b]).input,
    ensures
        ({
            let rings = source_registry::first_prefixes(ready, uploads);
            &&& ordered::ascending(ordered::entry_keys(rings))
            &&& ordered::collected(rings).contains_key(ready[i].input)
            &&& begins_with(ordered::collected(rings)[ready[i].input], ready[i], uploads[i])
        }),
    decreases ready.len(),
{
    let rest = ready.drop_last();
    lemma_rings_ascend(rest, uploads);
    let last = ready.last();
    ordered::lemma_with_entry(
        source_registry::first_prefixes(rest, uploads),
        last.input,
        source_registry::first_prefix(last, uploads[ready.len() - 1]),
    );
    if i < rest.len() {
        assert forall|a: int, b: int| 0 <= a < b < rest.len() implies (#[trigger] rest[a]).input
            != (#[trigger] rest[b]).input by {
            assert(ready[a].input != ready[b].input);
        }
        rings_begin_with_their_uploads(rest, uploads, i);
        assert(ready[i].input != ready[ready.len() - 1].input);
    }
}

proof fn lemma_rings_ascend(ready: Seq<PreflightModel>, uploads: Seq<Seq<WorkingFrame>>)
    ensures
        ordered::ascending(
            ordered::entry_keys(source_registry::first_prefixes(ready, uploads)),
        ),
    decreases ready.len(),
{
    if ready.len() > 0 {
        lemma_rings_ascend(ready.drop_last(), uploads);
        ordered::lemma_with_entry(
            source_registry::first_prefixes(ready.drop_last(), uploads),
            ready.last().input,
            source_registry::first_prefix(ready.last(), uploads[ready.len() - 1]),
        );
    }
}

/// Which sources have been checked where a stage is reached.
pub open spec fn checked_by(stage: PreflightStageModel) -> Seq<PreflightModel> {
    match stage {
        PreflightStageModel::Decode { ready } => ready,
        PreflightStageModel::Upload { ready, .. } => ready,
        _ => Seq::empty(),
    }
}

proof fn lemma_checking_keeps(setting: SourceSetting, ready: Seq<PreflightModel>)
    requires
        ready.len() <= setting.sources@.len(),
        ready.len() > 0 || setting.sources@.len() > 0,
    ensures
        source_opening::checking(setting, ready) matches Ok(stage) ==> match stage {
            PreflightStageModel::Decode { ready: checked } => ready.len() <= checked.len()
                && checked.take(ready.len() as int) == ready && checked.len()
                < setting.sources@.len() && setting.sources@[checked.len() as int] is LocalVideo
                && forall|i: int|
                ready.len() <= i < checked.len() ==> !((#[trigger] setting.sources@[i])
                    is LocalVideo),
            PreflightStageModel::Upload { ready: checked, uploads, .. } => ready.len()
                <= checked.len() && checked.take(ready.len() as int) == ready && checked.len()
                == setting.sources@.len() && uploads.len() == 0 && forall|i: int|
                ready.len() <= i < checked.len() ==> !((#[trigger] setting.sources@[i])
                    is LocalVideo),
            _ => false,
        },
    decreases setting.sources@.len() - ready.len(),
{
    assert(ready.take(ready.len() as int) =~= ready);
    if ready.len() < setting.sources@.len() {
        let checked = match setting.sources@[ready.len() as int] {
            NativeResolvedSource::LocalVideo { .. } => None,
            NativeResolvedSource::RetainedFrame { input, frame } => {
                match source_registry::checked_retained_frame(input, frame, setting.clock_domain) {
                    Err(_) => None,
                    Ok(checked) => Some(checked),
                }
            },
            NativeResolvedSource::LiveFrame { input, frame } => {
                match source_registry::checked_live_frame(input, frame) {
                    Err(_) => None,
                    Ok(checked) => Some(checked),
                }
            },
        };
        if let Some(checked) = checked {
            let next = ready.push(checked);
            lemma_checking_keeps(setting, next);
            if let Ok(stage) = source_opening::checking(setting, next) {
                let all = checked_by(stage);
                assert(all.take(ready.len() as int) =~= all.take(next.len() as int).take(
                    ready.len() as int,
                ));
                assert(next.take(ready.len() as int) =~= ready);
            }
        }
    }
}

/// A file that has been decoded is put behind the sources that were checked before it, and the
/// next file is decoded, or, where there is none, all are uploaded. None is left out.
pub proof fn files_are_decoded_in_turn(
    setting: SourceSetting,
    ready: Seq<PreflightModel>,
    window: Result<DecodedVideoWindow, OutsideFailure>,
    next: PreflightStageModel,
)
    requires
        ready.len() < setting.sources@.len(),
        source_opening::preflight_step(
            setting,
            PreflightStageModel::Decode { ready },
            PreflightEvent::Decoded(window),
        ) == Ok::<PreflightStageModel, NativeSourcePreflightError>(next),
    ensures
        ({
            let place = ready.len() as int;
            let checked = checked_by(next);
            &&& checked.len() > place
            &&& checked.take(place) == ready
            &&& checked[place].input == setting.sources@[place].source_input()
            &&& window matches Ok(brought) && checked[place].frames == brought.frames@
                && checked[place].end_of_stream == brought.end_of_stream
            &&& forall|i: int|
                place < i < checked.len() ==> !((#[trigger] setting.sources@[i]) is LocalVideo)
        }),
        next is Decode ==> checked_by(next).len() < setting.sources@.len()
            && setting.sources@[checked_by(next).len() as int] is LocalVideo,
        next is Upload ==> checked_by(next).len() == setting.sources@.len() && next->uploads.len()
            == 0,
        next is Decode || next is Upload,
{
    let place = ready.len() as int;
    let brought = source_registry::checked_local_video(
        setting.sources@[place].source_input(),
        window,
        setting.clock_domain,
        setting.limits,
    )->Ok_0;
    let behind = ready.push(brought);
    lemma_checking_keeps(setting, behind);
    let checked = checked_by(next);
    assert(checked.take(place) =~= checked.take(behind.len() as int).take(place));
    assert(behind.take(place) =~= ready);
    assert(checked[place] == checked.take(behind.len() as int)[place]);
}

/// The frames of a source that have been uploaded are put behind those of the sources before it;
/// once all have been uploaded, they make up the registry, with what they were admitted for.
pub proof fn frames_are_uploaded_in_turn(
    setting: SourceSetting,
    ready: Seq<PreflightModel>,
    admission: (Option<(u32, u32)>, u64),
    uploads: Seq<Seq<WorkingFrame>>,
    event: PreflightEvent,
    frames: Seq<WorkingFrame>,
)
    requires
        uploads.len() < ready.len(),
        event matches PreflightEvent::Uploaded(Ok(uploaded)) && uploaded@ == frames,
    ensures
        ({
            let next = source_opening::preflight_step(
                setting,
                PreflightStageModel::Upload { ready, admission, uploads },
                event,
            );
            &&& uploads.len() + 1 < ready.len() ==> (next matches Ok(
                PreflightStageModel::Upload {
                    ready: kept,
                    admission: kept_admission,
                    uploads: more,
                },
            ) && kept == ready && kept_admission == admission && more == uploads.push(frames))
            &&& uploads.len() + 1 == ready.len() ==> (next matches Ok(
                PreflightStageModel::Start { registry },
            ) && registry.dimensions == admission.0 && registry.retained_rgba16f_bytes
                == admission.1 && registry.limits == setting.limits && registry.sources
                == source_registry::first_prefixes(ready, uploads.push(frames)))
        }),
{
}

/// Opening is over once the decoders run: the sources are played as they were put together, and
/// nothing has failed.
pub proof fn sources_are_played_as_put_together(
    setting: SourceSetting,
    registry: crate::source_registry::RegistryModel,
    started: Result<(), NativeSourcePreflightError>,
)
    ensures
        ({
            let next = source_opening::preflight_step(
                setting,
                PreflightStageModel::Start { registry },
                PreflightEvent::Started(started),
            );
            &&& started is Ok ==> (next matches Ok(PreflightStageModel::Over { rings })
                && rings.registry == registry && !rings.failed)
            &&& started matches Err(error) ==> next == Err::<
                PreflightStageModel,
                NativeSourcePreflightError,
            >(error)
        }),
{
}

/// A source is refilled where it is not being served, has not ended and holds few frames, and
/// then with as many as its ring, one page and the budget allow.
pub proof fn rings_are_refilled_as_far_as_there_is_room(
    retained_frames: nat,
    in_flight: bool,
    end_of_stream: bool,
    maximum_frames: u32,
    budget_frames: u64,
)
    ensures
        ({
            let count = source::refill_frames(
                retained_frames,
                in_flight,
                end_of_stream,
                maximum_frames,
                budget_frames,
            );
            &&& count > 0 <==> {
                &&& !in_flight
                &&& !end_of_stream
                &&& retained_frames <= source::SOURCE_REFILL_LOW_WATERMARK
                &&& retained_frames < maximum_frames
                &&& budget_frames > 0
            }
            &&& count > 0 ==> {
                &&& retained_frames + count <= maximum_frames
                &&& count <= source::SOURCE_REFILL_MAX_PAGE
                &&& count <= budget_frames
                &&& retained_frames + count == maximum_frames || count
                    == source::SOURCE_REFILL_MAX_PAGE || count == budget_frames
            }
        }),
{
}

} // verus!
