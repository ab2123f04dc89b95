//! What holds of the rings of all sources, whatever happens to them.
use vstd::prelude::*;

use crate::model::{InputId, OutsideFailure};
use crate::ordered;
use crate::playback_cycle;
use crate::playback_cycle::{
    PlaybackEvent, PlaybackService, PlaybackStageModel, RingsModel,
};
use crate::playback_sending;
use crate::source;
use crate::source::VideoFrame;
use crate::source_opening;
use crate::source_opening::SourceSetting;
use crate::source_playback;
use crate::source_playback::{NativeDecodeResult, VerdictModel};
use crate::source_registry;
use crate::source_registry::{NativeDecodeRequest, PrefixModel, RegistryModel, WorkingFrame};

verus! {

/// Whether every ring holds a frame.
pub open spec fn all_hold_a_frame(registry: RegistryModel) -> bool {
    forall|i: int|
        0 <= i < registry.sources.len() ==> (#[trigger] registry.sources[i]).1.frames.len() > 0
}

/// Every ring begins with a frame.
pub proof fn rings_begin_with_a_frame(setting: SourceSetting, registry: RegistryModel)
    requires
        source::checked_sources(
            setting.sources@,
            setting.has_adapter,
            setting.limits.max_media_inputs,
        ) is Ok,
        source_opening::is_registry_of(setting, registry),
    ensures
        all_hold_a_frame(registry),
{
    ordered::lemma_entries_match_map(registry.sources);
    source_opening::every_source_has_its_ring(setting, registry);
    assert forall|i: int| 0 <= i < registry.sources.len() implies (
    #[trigger] registry.sources[i]).1.frames.len() > 0 by {
        let input = registry.sources[i].0;
        assert(ordered::entry_keys(registry.sources)[i] == input);
        assert(ordered::collected(registry.sources).contains_key(input));
        let k = choose|k: int|
            0 <= k < setting.sources@.len() && (#[trigger] setting.sources@[k]).source_input()
                == input;
        assert(source_opening::is_ring_of(
            setting,
            setting.sources@[k],
            ordered::collected(registry.sources)[input],
        ));
    }
}

/// A ring that is exchanged for one with a frame leaves every ring with a frame.
proof fn lemma_exchanged(
    registry: RegistryModel,
    input: InputId,
    prefix: PrefixModel,
    retained: u64,
)
    requires
        registry.wf(),
        registry.prefix(input) is Some,
        all_hold_a_frame(registry),
        prefix.frames.len() > 0,
    ensures
        all_hold_a_frame(source_playback::with_prefix(registry, input, prefix, retained)),
{
    source_playback::lemma_prefix_at(registry, input);
    let after = source_playback::with_prefix(registry, input, prefix, retained);
    let slot = ordered::lower_bound(ordered::entry_keys(registry.sources), input);
    assert forall|i: int| 0 <= i < after.sources.len() implies (
    #[trigger] after.sources[i]).1.frames.len() > 0 by {
        if i != slot {
            assert(after.sources[i] == registry.sources[i]);
        }
    }
}

/// The answer of a decoder leaves every ring with a frame, also where it replaces one.
pub proof fn answers_leave_a_frame(
    registry: RegistryModel,
    request: NativeDecodeRequest,
    window: Result<(Seq<VideoFrame>, bool), OutsideFailure>,
    normalized: Result<Seq<WorkingFrame>, OutsideFailure>,
)
    requires
        registry.wf(),
        all_hold_a_frame(registry),
        (window is Ok && normalized is Ok) ==> normalized->Ok_0.len() == window->Ok_0.0.len(),
    ensures
        source_playback::answered(registry, request, window, normalized) matches Ok(after)
            ==> all_hold_a_frame(after),
{
    let input = request.input;
    if let Ok(after) = source_playback::answered(registry, request, window, normalized) {
        let prefix = registry.prefix(input)->Some_0;
        source_playback::lemma_prefix_at(registry, input);
        let slot = ordered::lower_bound(ordered::entry_keys(registry.sources), input);
        assert(registry.sources[slot].1.frames.len() > 0);
        match source_playback::page_verdict(registry, request, window) {
            Err(_) => {},
            Ok(VerdictModel::EndOfStream) => {
                lemma_exchanged(
                    registry,
                    input,
                    PrefixModel { in_flight: None, end_of_stream: true, ..prefix },
                    registry.retained_rgba16f_bytes,
                );
            },
            Ok(VerdictModel::Upload(page)) => {
                lemma_exchanged(
                    registry,
                    input,
                    source_playback::extended_prefix(prefix, page, normalized->Ok_0),
                    page.required_bytes,
                );
            },
        }
    }
}

/// A live frame leaves every ring with a frame.
pub proof fn live_frames_leave_a_frame(
    registry: RegistryModel,
    input: InputId,
    frame: VideoFrame,
    normalized: Result<WorkingFrame, OutsideFailure>,
)
    requires
        registry.wf(),
        all_hold_a_frame(registry),
    ensures
        source_playback::ingested(registry, input, frame, normalized) matches Ok(after)
            ==> all_hold_a_frame(after),
{
    if let Ok(after) = source_playback::ingested(registry, input, frame, normalized) {
        let prefix = registry.prefix(input)->Some_0;
        lemma_exchanged(
            registry,
            input,
            PrefixModel {
                frames: seq![normalized->Ok_0],
                offsets_ns: seq![source_playback::rebased(prefix, frame)],
                last_source_pts: frame.timing.presentation_ns,
                last_sequence: frame.timing.sequence,
                ..prefix
            },
            registry.retained_rgba16f_bytes,
        );
    }
}

/// Marking a source for Stingers leaves every ring with a frame.
pub proof fn marks_leave_a_frame(
    registry: RegistryModel,
    input: InputId,
    available: bool,
    pinned: bool,
)
    requires
        registry.wf(),
        registry.prefix(input) is Some,
        all_hold_a_frame(registry),
    ensures
        all_hold_a_frame(source_playback::marked(registry, input, available, pinned)),
{
    source_playback::lemma_prefix_at(registry, input);
    let slot = ordered::lower_bound(ordered::entry_keys(registry.sources), input);
    assert(registry.sources[slot].1.frames.len() > 0);
    lemma_exchanged(
        registry,
        input,
        PrefixModel {
            available_for_stinger: available,
            pinned_for_stinger: pinned,
            ..registry.prefix(input)->Some_0
        },
        registry.retained_rgba16f_bytes,
    );
}

proof fn lemma_scheduling(
    registry: RegistryModel,
    deadline_ns: u64,
    only: Option<InputId>,
    count: nat,
)
    requires
        all_hold_a_frame(registry),
        count <= registry.sources.len(),
    ensures
        all_hold_a_frame(source_playback::scheduled(registry, deadline_ns, only, count).0),
        source_playback::scheduled(registry, deadline_ns, only, count).0.sources.len()
            == registry.sources.len(),
    decreases count,
{
    if count > 0 {
        let i = count - 1;
        lemma_scheduling(registry, deadline_ns, only, i as nat);
        let now = source_playback::scheduled(registry, deadline_ns, only, i as nat).0;
        if let Some(request) = source_playback::refill_request(now, i, deadline_ns) {
            let after = source_playback::awaiting(now, i, request);
            assert forall|k: int| 0 <= k < after.sources.len() implies (
            #[trigger] after.sources[k]).1.frames.len() > 0 by {
                assert(now.sources[k].1.frames.len() > 0);
            }
        }
    }
}

/// Letting frames go and asking for more leaves every ring with a frame.
pub proof fn services_leave_a_frame(
    registry: RegistryModel,
    deadline_ns: u64,
    only: Option<InputId>,
)
    requires
        registry.wf(),
        all_hold_a_frame(registry),
    ensures
        all_hold_a_frame(source_playback::serviced(registry, deadline_ns, only).registry),
{
    if registry.dimensions is Some && registry.sources.len() > 0 {
        let kept = source_playback::trimmed_registry(
            registry,
            deadline_ns,
            only,
            registry.sources.len() as int,
        );
        assert forall|i: int| 0 <= i < kept.sources.len() implies (
        #[trigger] kept.sources[i]).1.frames.len() > 0 by {
            let (input, prefix) = registry.sources[i];
            assert(prefix.wf(input, registry.limits));
            source_playback::lemma_trimmed(prefix, input, registry.limits, deadline_ns);
        }
        lemma_scheduling(kept, deadline_ns, only, kept.sources.len());
    }
}

/// Taking requests back leaves every ring with a frame.
pub proof fn taking_back_leaves_a_frame(
    registry: RegistryModel,
    requests: Seq<NativeDecodeRequest>,
    sent: int,
)
    requires
        registry.wf(),
        all_hold_a_frame(registry),
    ensures
        all_hold_a_frame(playback_sending::unsent_taken_back(registry, requests, sent)),
    decreases requests.len(),
{
    if requests.len() > 0 && requests.len() > sent {
        let request = requests.last();
        let after = playback_sending::taken_back(registry, request);
        playback_sending::lemma_taken_back(registry, request);
        if registry.prefix(request.input) is Some {
            source_playback::lemma_prefix_at(registry, request.input);
            assert forall|i: int| 0 <= i < after.sources.len() implies (
            #[trigger] after.sources[i]).1.frames.len() > 0 by {
                assert(registry.sources[i].1.frames.len() > 0);
            }
        }
        taking_back_leaves_a_frame(after, requests.drop_last(), sent);
    }
}

proof fn lemma_looking_through(
    registry: RegistryModel,
    service: PlaybackService,
    answers: Seq<NativeDecodeResult>,
    place: int,
)
    requires
        registry.wf(),
        all_hold_a_frame(registry),
        0 <= place,
    ensures
        all_hold_a_frame(
            playback_cycle::looked_through(registry, service, answers, place).0.registry,
        ),
    decreases answers.len() - place,
{
    if place >= answers.len() {
        services_leave_a_frame(registry, service.deadline_ns, service.only);
    } else {
        let window = source_playback::answer(answers[place]);
        let request = answers[place].request;
        if let Ok(VerdictModel::EndOfStream) = source_playback::page_verdict(
            registry,
            request,
            window,
        ) {
            let nothing = Seq::<WorkingFrame>::empty();
            answers_leave_a_frame(registry, request, window, Ok(nothing));
            source_playback::answer_keeps_registry_in_order(registry, request, window, Ok(nothing));
            lemma_looking_through(
                source_playback::answered(registry, request, window, Ok(nothing))->Ok_0,
                service,
                answers,
                place + 1,
            );
        }
    }
}

/// No ring is ever left without a frame: where every ring holds one before a step of a service,
/// every ring does after it, whatever the decoders and the renderer brought.
pub proof fn no_ring_is_left_without_a_frame(
    rings: RingsModel,
    service: PlaybackService,
    stage: PlaybackStageModel,
    event: PlaybackEvent,
)
    requires
        rings.registry.wf(),
        all_hold_a_frame(rings.registry),
        stage.wf(),
        playback_cycle::answers_playback(stage, event),
    ensures
        all_hold_a_frame(playback_cycle::playback_step(rings, service, stage, event).0.registry),
{
    if !rings.failed {
        match (stage, event) {
            (PlaybackStageModel::Answers, PlaybackEvent::Answered(Ok(answers))) => {
                lemma_looking_through(rings.registry, service, answers@, 0);
            },
            (
                PlaybackStageModel::Upload { answers, place },
                PlaybackEvent::Uploaded(uploaded),
            ) => {
                let window = source_playback::answer(answers[place]);
                let views = source_playback::upload_views(uploaded);
                answers_leave_a_frame(rings.registry, answers[place].request, window, views);
                source_playback::answer_keeps_registry_in_order(
                    rings.registry,
                    answers[place].request,
                    window,
                    views,
                );
                if let Ok(after) = source_playback::answered(
                    rings.registry,
                    answers[place].request,
                    window,
                    views,
                ) {
                    lemma_looking_through(after, service, answers, place + 1);
                }
            },
            _ => {},
        }
    }
}

} // verus!
