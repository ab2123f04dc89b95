//! The order of the steps by which resolved sources become rings.
//!
//! First every source is checked, one after the other; local videos are decoded for that. Then
//! all are admitted together, their frames are uploaded, and the decoders get a thread of their
//! own. Each stage says what is waited for, and each event brings what came of it.
use vstd::prelude::*;

use crate::model::{ClockDomainId, InputId, OutsideFailure};
use crate::ordered;
use crate::playback_cycle::RingsModel;
use crate::source;
use crate::source::{
    validate_resolved_sources, NativeResolvedSource, NativeSourceLimits,
    NativeSourcePreflightError,
};
use crate::source_playback::NativeSourcePlayback;
use crate::source_registry;
use crate::source_registry::{
    admit_sources, preflight_live_frame, preflight_local_video, preflight_retained_frame,
    DecodedVideoWindow, NativeSourceRegistry, PrefixModel, PreflightModel, PreflightSource,
    RegistryModel, WorkingFrame,
};

verus! {

/// What is opened.
pub struct SourceSetting<'a> {
    pub sources: &'a [NativeResolvedSource],
    /// Whether local videos can be decoded.
    pub has_adapter: bool,
    pub clock_domain: ClockDomainId,
    pub limits: NativeSourceLimits,
}

impl<'a> SourceSetting<'a> {
    /// Whether every frame that is given has pixels.
    pub open spec fn wf(self) -> bool {
        forall|i: int|
            0 <= i < self.sources@.len() ==> match #[trigger] self.sources@[i] {
                NativeResolvedSource::LocalVideo { .. } => true,
                NativeResolvedSource::RetainedFrame { frame, .. } => frame.wf(),
                NativeResolvedSource::LiveFrame { frame, .. } => frame.wf(),
            }
    }
}

/// How far opening has come, and what it waits for.
pub enum PreflightStage {
    /// The local video that comes after the sources which have been checked is to be opened, and
    /// its first frames are to be decoded.
    Decode { ready: Vec<PreflightSource> },
    /// The frames of the source that comes after those which have been uploaded are to be
    /// uploaded.
    Upload {
        ready: Vec<PreflightSource>,
        admission: (Option<(u32, u32)>, u64),
        uploads: Vec<Vec<WorkingFrame>>,
    },
    /// The decoders are to be moved to a thread of their own.
    Start { registry: NativeSourceRegistry },
    /// The sources can be played.
    Over { playback: NativeSourcePlayback },
}

/// What a stage of opening holds.
#[verifier::ext_equal]
pub enum PreflightStageModel {
    Decode { ready: Seq<PreflightModel> },
    Upload {
        ready: Seq<PreflightModel>,
        admission: (Option<(u32, u32)>, u64),
        uploads: Seq<Seq<WorkingFrame>>,
    },
    Start { registry: RegistryModel },
    Over { rings: RingsModel },
}

impl View for PreflightStage {
    type V = PreflightStageModel;

    open spec fn view(&self) -> PreflightStageModel {
        match self {
            PreflightStage::Decode { ready } => PreflightStageModel::Decode {
                ready: source_registry::ready_views(ready@),
            },
            PreflightStage::Upload { ready, admission, uploads } => PreflightStageModel::Upload {
                ready: source_registry::ready_views(ready@),
                admission: *admission,
                uploads: source_registry::uploaded_views(uploads@),
            },
            PreflightStage::Start { registry } => PreflightStageModel::Start {
                registry: registry@,
            },
            PreflightStage::Over { playback } => PreflightStageModel::Over { rings: playback@ },
        }
    }
}

/// Whether this is what came of checking a source.
pub open spec fn is_check_of(
    setting: SourceSetting,
    source: NativeResolvedSource,
    checked: PreflightModel,
) -> bool {
    match source {
        NativeResolvedSource::LocalVideo { input, .. } => exists|
            window: Result<DecodedVideoWindow, OutsideFailure>,
        | #[trigger]
            source_registry::checked_local_video(
                input,
                window,
                setting.clock_domain,
                setting.limits,
            ) == Ok::<PreflightModel, NativeSourcePreflightError>(checked),
        NativeResolvedSource::RetainedFrame { input, frame } => {
            source_registry::checked_retained_frame(input, frame, setting.clock_domain) == Ok::<
                PreflightModel,
                NativeSourcePreflightError,
            >(checked)
        },
        NativeResolvedSource::LiveFrame { input, frame } => source_registry::checked_live_frame(
            input,
            frame,
        ) == Ok::<PreflightModel, NativeSourcePreflightError>(checked),
    }
}

/// Whether sources have been checked in their order, each under its own input.
pub open spec fn checked_in_order(setting: SourceSetting, ready: Seq<PreflightModel>) -> bool {
    &&& ready.len() <= setting.sources@.len()
    &&& forall|i: int|
        0 <= i < ready.len() ==> {
            let checked = #[trigger] ready[i];
            &&& checked.wf()
            &&& checked.frames[0].wf()
            &&& is_check_of(setting, setting.sources@[i], checked)
            &&& checked.input == setting.sources@[i].source_input()
        }
}

/// Whether frames have been uploaded for checked sources in their order, for each as many as it
/// has.
pub open spec fn uploaded_in_order(
    ready: Seq<PreflightModel>,
    uploads: Seq<Seq<WorkingFrame>>,
) -> bool {
    &&& uploads.len() <= ready.len()
    &&& forall|i: int|
        0 <= i < uploads.len() ==> (#[trigger] uploads[i]).len() == ready[i].frames.len()
}

/// Whether a registry is that of all sources, checked, admitted and uploaded.
pub open spec fn is_registry_of(setting: SourceSetting, registry: RegistryModel) -> bool {
    &&& registry.wf()
    &&& exists|
        ready: Seq<PreflightModel>,
        uploads: Seq<Seq<WorkingFrame>>,
        admission: (Option<(u32, u32)>, u64),
    |
        {
            &&& #[trigger] source_registry::first_registry(
                ready,
                uploads,
                admission,
                setting.limits,
            ) == registry
            &&& all_taken(setting, ready, admission)
            &&& uploaded_in_order(ready, uploads)
            &&& uploads.len() == ready.len()
        }
}

/// Whether every source has been checked and all have been admitted together.
pub open spec fn all_taken(
    setting: SourceSetting,
    ready: Seq<PreflightModel>,
    admission: (Option<(u32, u32)>, u64),
) -> bool {
    &&& checked_in_order(setting, ready)
    &&& ready.len() == setting.sources@.len()
    &&& source_registry::admitted(ready, setting.limits) == Ok::<
        (Option<(u32, u32)>, u64),
        source::NativeSourceError,
    >(admission)
}

impl PreflightStageModel {
    /// Whether a stage goes with what is opened: while a video is decoded, the sources before it
    /// have been checked; nothing is uploaded before every source has been checked and all have
    /// been admitted; and the registry is made of them all.
    pub open spec fn wf(self, setting: SourceSetting) -> bool {
        &&& source::checked_sources(
            setting.sources@,
            setting.has_adapter,
            setting.limits.max_media_inputs,
        ) is Ok
        &&& match self {
            PreflightStageModel::Decode { ready } => {
                &&& checked_in_order(setting, ready)
                &&& ready.len() < setting.sources@.len()
                &&& setting.sources@[ready.len() as int] is LocalVideo
            },
            PreflightStageModel::Upload { ready, admission, uploads } => {
                &&& all_taken(setting, ready, admission)
                &&& uploaded_in_order(ready, uploads)
                &&& uploads.len() < ready.len()
            },
            PreflightStageModel::Start { registry } => is_registry_of(setting, registry),
            PreflightStageModel::Over { rings } => is_registry_of(setting, rings.registry)
                && !rings.failed,
        }
    }
}

/// What came of that which a stage of opening waited for.
pub enum PreflightEvent {
    Decoded(Result<DecodedVideoWindow, OutsideFailure>),
    Uploaded(Result<Vec<WorkingFrame>, OutsideFailure>),
    Started(Result<(), NativeSourcePreflightError>),
}

/// Whether an event is what a stage waits for: decoded frames have pixels, and as many frames
/// are uploaded as there are.
pub open spec fn answers_preflight(stage: PreflightStageModel, event: PreflightEvent) -> bool {
    match (stage, event) {
        (PreflightStageModel::Decode { .. }, PreflightEvent::Decoded(window)) => {
            window matches Ok(window) ==> (window.frames@.len() > 0 ==> window.frames@[0].wf())
        },
        (
            PreflightStageModel::Upload { ready, uploads, .. },
            PreflightEvent::Uploaded(uploaded),
        ) => uploaded matches Ok(frames) ==> frames@.len()
            == ready[uploads.len() as int].frames.len(),
        (PreflightStageModel::Start { .. }, PreflightEvent::Started(_)) => true,
        _ => false,
    }
}

/// The stage once the frames of some sources have been uploaded.
pub open spec fn uploading(
    setting: SourceSetting,
    ready: Seq<PreflightModel>,
    admission: (Option<(u32, u32)>, u64),
    uploads: Seq<Seq<WorkingFrame>>,
) -> PreflightStageModel {
    if uploads.len() < ready.len() {
        PreflightStageModel::Upload { ready, admission, uploads }
    } else {
        PreflightStageModel::Start {
            registry: source_registry::first_registry(ready, uploads, admission, setting.limits),
        }
    }
}

/// The stage once some sources have been checked: the sources after them are checked up to the
/// next local video; after the last, all are admitted together.
pub open spec fn checking(setting: SourceSetting, ready: Seq<PreflightModel>) -> Result<
    PreflightStageModel,
    NativeSourcePreflightError,
>
    decreases setting.sources@.len() - ready.len(),
{
    if ready.len() >= setting.sources@.len() {
        match source_registry::admitted(ready, setting.limits) {
            Err(error) => Err(NativeSourcePreflightError::Source(error)),
            Ok(admission) => Ok(uploading(setting, ready, admission, Seq::empty())),
        }
    } else {
        match setting.sources@[ready.len() as int] {
            NativeResolvedSource::LocalVideo { .. } => Ok(PreflightStageModel::Decode { ready }),
            NativeResolvedSource::RetainedFrame { input, frame } => {
                match source_registry::checked_retained_frame(input, frame, setting.clock_domain) {
                    Err(error) => Err(error),
                    Ok(checked) => checking(setting, ready.push(checked)),
                }
            },
            NativeResolvedSource::LiveFrame { input, frame } => {
                match source_registry::checked_live_frame(input, frame) {
                    Err(error) => Err(error),
                    Ok(checked) => checking(setting, ready.push(checked)),
                }
            },
        }
    }
}

/// The first stage of opening.
pub open spec fn preflight_begun(setting: SourceSetting) -> Result<
    PreflightStageModel,
    NativeSourcePreflightError,
> {
    match source::checked_sources(
        setting.sources@,
        setting.has_adapter,
        setting.limits.max_media_inputs,
    ) {
        Err(error) => Err(error),
        Ok(_) => checking(setting, Seq::empty()),
    }
}

/// The stage that follows on a stage and what came of it.
pub open spec fn preflight_step(
    setting: SourceSetting,
    stage: PreflightStageModel,
    event: PreflightEvent,
) -> Result<PreflightStageModel, NativeSourcePreflightError> {
    match (stage, event) {
        (PreflightStageModel::Decode { ready }, PreflightEvent::Decoded(window)) => {
            match source_registry::checked_local_video(
                setting.sources@[ready.len() as int].source_input(),
                window,
                setting.clock_domain,
                setting.limits,
            ) {
                Err(error) => Err(error),
                Ok(checked) => checking(setting, ready.push(checked)),
            }
        },
        (
            PreflightStageModel::Upload { ready, admission, uploads },
            PreflightEvent::Uploaded(uploaded),
        ) => match uploaded {
            Err(error) => Err(
                NativeSourcePreflightError::Normalize {
                    input: ready[uploads.len() as int].input,
                    error,
                },
            ),
            Ok(frames) => Ok(uploading(setting, ready, admission, uploads.push(frames@))),
        },
        (PreflightStageModel::Start { registry }, PreflightEvent::Started(started)) => {
            match started {
                Err(error) => Err(error),
                Ok(_) => Ok(
                    PreflightStageModel::Over { rings: RingsModel { registry, failed: false } },
                ),
            }
        },
        _ => Ok(stage),
    }
}

/// What a preflight comes to, as a stage or as its failure.
pub open spec fn comes_to(
    expected: Result<PreflightStageModel, NativeSourcePreflightError>,
    stage: Result<PreflightStage, NativeSourcePreflightError>,
) -> bool {
    match stage {
        Ok(stage) => expected == Ok::<PreflightStageModel, NativeSourcePreflightError>(stage@),
        Err(error) => expected == Err::<PreflightStageModel, NativeSourcePreflightError>(error),
    }
}

/// Puts one more checked source behind those that have been checked.
proof fn lemma_one_more_checked(
    setting: SourceSetting,
    ready: Seq<PreflightModel>,
    checked: PreflightModel,
)
    requires
        checked_in_order(setting, ready),
        ready.len() < setting.sources@.len(),
        checked.wf(),
        checked.frames[0].wf(),
        is_check_of(setting, setting.sources@[ready.len() as int], checked),
        checked.input == setting.sources@[ready.len() as int].source_input(),
    ensures
        checked_in_order(setting, ready.push(checked)),
{
    let after = ready.push(checked);
    assert forall|i: int| 0 <= i < after.len() implies {
        let one = #[trigger] after[i];
        &&& one.wf()
        &&& one.frames[0].wf()
        &&& is_check_of(setting, setting.sources@[i], one)
        &&& one.input == setting.sources@[i].source_input()
    } by {
        if i < ready.len() {
            assert(after[i] == ready[i]);
        }
    }
}

/// Goes on once sources have been uploaded.
fn go_on_uploading(
    setting: &SourceSetting,
    ready: Vec<PreflightSource>,
    admission: (Option<(u32, u32)>, u64),
    uploads: Vec<Vec<WorkingFrame>>,
) -> (stage: PreflightStage)
    requires
        source::checked_sources(
            setting.sources@,
            setting.has_adapter,
            setting.limits.max_media_inputs,
        ) is Ok,
        all_taken(*setting, source_registry::ready_views(ready@), admission),
        uploaded_in_order(
            source_registry::ready_views(ready@),
            source_registry::uploaded_views(uploads@),
        ),
    ensures
        stage@ == uploading(
            *setting,
            source_registry::ready_views(ready@),
            admission,
            source_registry::uploaded_views(uploads@),
        ),
        stage@.wf(*setting),
{
    let ghost views = source_registry::ready_views(ready@);
    let ghost frames = source_registry::uploaded_views(uploads@);
    if uploads.len() < ready.len() {
        return PreflightStage::Upload { ready, admission, uploads };
    }
    proof {
        assert forall|i: int| 0 <= i < ready@.len() implies (#[trigger] ready@[i]).wf()
            && uploads@[i]@.len() == ready@[i].frames@.len() && ready@[i].frames@[0].wf() by {
            assert(views[i] == ready@[i]@);
            assert(frames[i] == uploads@[i]@);
        }
    }
    let registry: NativeSourceRegistry = NativeSourceRegistry::from_preflight(
        ready,
        uploads,
        admission,
        setting.limits,
    );
    assert(is_registry_of(*setting, registry@)) by {
        assert(source_registry::first_registry(views, frames, admission, setting.limits)
            == registry@);
    }
    PreflightStage::Start { registry }
}

/// Checks sources up to the next local video, and admits them all after the last.
#[verifier::loop_isolation(false)]
fn go_on_checking(setting: &SourceSetting, ready: Vec<PreflightSource>) -> (stage: Result<
    PreflightStage,
    NativeSourcePreflightError,
>)
    requires
        setting.wf(),
        source::checked_sources(
            setting.sources@,
            setting.has_adapter,
            setting.limits.max_media_inputs,
        ) is Ok,
        checked_in_order(*setting, source_registry::ready_views(ready@)),
    ensures
        comes_to(checking(*setting, source_registry::ready_views(ready@)), stage),
        stage matches Ok(stage) ==> stage@.wf(*setting),
{
    let ghost whole = checking(*setting, source_registry::ready_views(ready@));
    let mut ready: Vec<PreflightSource> = ready;
    while ready.len() < setting.sources.len()
        invariant
            setting.wf(),
            source::checked_sources(
                setting.sources@,
                setting.has_adapter,
                setting.limits.max_media_inputs,
            ) is Ok,
            checked_in_order(*setting, source_registry::ready_views(ready@)),
            whole == checking(*setting, source_registry::ready_views(ready@)),
        decreases setting.sources@.len() - ready@.len(),
    {
        let ghost before = source_registry::ready_views(ready@);
        let place: usize = ready.len();
        let checked: Result<PreflightSource, NativeSourcePreflightError> =
            match &setting.sources[place] {
            NativeResolvedSource::LocalVideo { .. } => {
                return Ok(PreflightStage::Decode { ready });
            },
            NativeResolvedSource::RetainedFrame { input, frame } => preflight_retained_frame(
                *input,
                *frame,
                setting.clock_domain,
            ),
            NativeResolvedSource::LiveFrame { input, frame } => preflight_live_frame(
                *input,
                *frame,
            ),
        };
        let checked: PreflightSource = match checked {
            Err(error) => {
                return Err(error);
            },
            Ok(checked) => checked,
        };
        proof {
            lemma_one_more_checked(*setting, before, checked@);
        }
        let ghost view = checked@;
        ready.push(checked);
        assert(source_registry::ready_views(ready@) =~= before.push(view));
    }
    proof {
        let views = source_registry::ready_views(ready@);
        assert forall|i: int| 0 <= i < ready@.len() implies (#[trigger] ready@[i]).wf() by {
            assert(views[i] == ready@[i]@);
        }
    }
    match admit_sources(&ready, setting.limits) {
        Err(error) => Err(NativeSourcePreflightError::Source(error)),
        Ok(admission) => {
            let uploads: Vec<Vec<WorkingFrame>> = Vec::new();
            assert(source_registry::uploaded_views(uploads@) =~= Seq::<Seq<WorkingFrame>>::empty());
            Ok(go_on_uploading(setting, ready, admission, uploads))
        },
    }
}

/// Begins to open sources: they are checked together before any of them is opened.
pub fn begin_preflight(setting: &SourceSetting) -> (stage: Result<
    PreflightStage,
    NativeSourcePreflightError,
>)
    requires
        setting.wf(),
    ensures
        comes_to(preflight_begun(*setting), stage),
        stage matches Ok(stage) ==> stage@.wf(*setting),
{
    match validate_resolved_sources(
        setting.sources,
        setting.has_adapter,
        setting.limits.max_media_inputs,
    ) {
        Err(error) => Err(error),
        Ok(()) => {
            let ready: Vec<PreflightSource> = Vec::new();
            assert(source_registry::ready_views(ready@) =~= Seq::<PreflightModel>::empty());
            go_on_checking(setting, ready)
        },
    }
}

/// Goes from one stage of opening to the next.
pub fn continue_preflight(
    setting: &SourceSetting,
    stage: PreflightStage,
    event: PreflightEvent,
) -> (next: Result<PreflightStage, NativeSourcePreflightError>)
    requires
        setting.wf(),
        stage@.wf(*setting),
        answers_preflight(stage@, event),
    ensures
        comes_to(preflight_step(*setting, stage@, event), next),
        next matches Ok(next) ==> next@.wf(*setting),
{
    match (stage, event) {
        (PreflightStage::Decode { ready }, PreflightEvent::Decoded(window)) => {
            let ghost before = source_registry::ready_views(ready@);
            let input: InputId = setting.sources[ready.len()].input();
            let checked: PreflightSource = match preflight_local_video(
                input,
                window,
                setting.clock_domain,
                setting.limits,
            ) {
                Err(error) => {
                    return Err(error);
                },
                Ok(checked) => checked,
            };
            proof {
                assert(source_registry::checked_local_video(
                    input,
                    window,
                    setting.clock_domain,
                    setting.limits,
                ) == Ok::<PreflightModel, NativeSourcePreflightError>(checked@));
                lemma_one_more_checked(*setting, before, checked@);
            }
            let ghost view = checked@;
            let mut ready: Vec<PreflightSource> = ready;
            ready.push(checked);
            assert(source_registry::ready_views(ready@) =~= before.push(view));
            go_on_checking(setting, ready)
        },
        (
            PreflightStage::Upload { ready, admission, uploads },
            PreflightEvent::Uploaded(uploaded),
        ) => {
            let ghost views = source_registry::ready_views(ready@);
            let ghost before = source_registry::uploaded_views(uploads@);
            match uploaded {
                Err(error) => {
                    let place: usize = uploads.len();
                    assert(views[place as int] == ready@[place as int]@);
                    Err(NativeSourcePreflightError::Normalize { input: ready[place].input, error })
                },
                Ok(frames) => {
                    let ghost uploaded_frames = frames@;
                    let mut uploads: Vec<Vec<WorkingFrame>> = uploads;
                    uploads.push(frames);
                    assert(source_registry::uploaded_views(uploads@) =~= before.push(
                        uploaded_frames,
                    ));
                    Ok(go_on_uploading(setting, ready, admission, uploads))
                },
            }
        },
        (PreflightStage::Start { registry }, PreflightEvent::Started(started)) => match started {
            Err(error) => Err(error),
            Ok(()) => Ok(PreflightStage::Over { playback: NativeSourcePlayback::new(registry) }),
        },
        (stage, _) => Ok(stage),
    }
}

/// Each checked source has its ring, and there is no other.
proof fn lemma_rings(
    ready: Seq<PreflightModel>,
    uploads: Seq<Seq<WorkingFrame>>,
    count: int,
)
    requires
        0 <= count <= ready.len(),
        forall|i: int, j: int|
            0 <= i < j < ready.len() ==> (#[trigger] ready[i]).input != (#[trigger] ready[j]).input,
    ensures
        ({
            let rings = source_registry::first_prefixes(ready.take(count), uploads);
            &&& ordered::ascending(ordered::entry_keys(rings))
            &&& rings.len() == count
            &&& forall|i: int|
                0 <= i < count ==> ordered::collected(rings).contains_key(
                    (#[trigger] ready[i]).input,
                ) && ordered::collected(rings)[ready[i].input] == source_registry::first_prefix(
                    ready[i],
                    uploads[i],
                )
            &&& forall|input: InputId| #[trigger]
                ordered::collected(rings).contains_key(input) ==> exists|i: int|
                    0 <= i < count && (#[trigger] ready[i]).input == input
        }),
    decreases count,
{
    if count == 0 {
        let rings = source_registry::first_prefixes(ready.take(0), uploads);
        ordered::lemma_entries_match_map(rings);
        assert forall|input: InputId| !(#[trigger] ordered::collected(rings).contains_key(input)) by {
            assert(!ordered::entry_keys(rings).contains(input));
        }
    } else {
        lemma_rings(ready, uploads, count - 1);
        let some = ready.take(count);
        assert(some.drop_last() =~= ready.take(count - 1));
        let last = ready[count - 1];
        let before = source_registry::first_prefixes(ready.take(count - 1), uploads);
        let added = source_registry::first_prefix(last, uploads[count - 1]);
        let rings = source_registry::first_prefixes(some, uploads);
        let keys = ordered::entry_keys(before);
        ordered::lemma_entries_match_map(before);
        ordered::lemma_with_entry(before, last.input, added);
        assert(!ordered::collected(before).contains_key(last.input));
        assert(!keys.contains(last.input));
        ordered::lemma_contains_at_lower_bound(keys, last.input);
        ordered::lemma_lower_bound(keys, last.input);
        let slot = ordered::lower_bound(keys, last.input);
        if slot < before.len() {
            assert(keys[slot] == before[slot].0);
        }
        assert(rings == before.insert(slot, (last.input, added)));
        assert forall|i: int| 0 <= i < count implies ordered::collected(rings).contains_key(
            (#[trigger] ready[i]).input,
        ) && ordered::collected(rings)[ready[i].input] == source_registry::first_prefix(
            ready[i],
            uploads[i],
        ) by {
            if i < count - 1 {
                assert(ready[i].input != ready[count - 1].input);
            }
        }
        assert forall|input: InputId| #[trigger]
            ordered::collected(rings).contains_key(input) implies exists|i: int|
            0 <= i < count && (#[trigger] ready[i]).input == input by {
            if input == last.input {
                assert(ready[count - 1].input == input);
            } else {
                assert(ordered::collected(before).contains_key(input));
                let i = choose|i: int| 0 <= i < count - 1 && (#[trigger] ready[i]).input == input;
                assert(0 <= i < count && ready[i].input == input);
            }
        }
    }
}

/// Whether a ring is that of a source whose frames have been checked and uploaded.
pub open spec fn is_ring_of(
    setting: SourceSetting,
    source: NativeResolvedSource,
    ring: PrefixModel,
) -> bool {
    exists|checked: PreflightModel, frames: Seq<WorkingFrame>|
        {
            &&& #[trigger] source_registry::first_prefix(checked, frames) == ring
            &&& is_check_of(setting, source, checked)
            &&& frames.len() == checked.frames.len()
            &&& frames.len() > 0
        }
}

/// Once opening is over there is one ring for each resolved source, under its input and with
/// the frames of its check, and no other.
pub proof fn every_source_has_its_ring(setting: SourceSetting, registry: RegistryModel)
    requires
        source::checked_sources(
            setting.sources@,
            setting.has_adapter,
            setting.limits.max_media_inputs,
        ) is Ok,
        is_registry_of(setting, registry),
    ensures
        registry.sources.len() == setting.sources@.len(),
        forall|i: int|
            0 <= i < setting.sources@.len() ==> {
                let source = #[trigger] setting.sources@[i];
                &&& ordered::collected(registry.sources).contains_key(source.source_input())
                &&& is_ring_of(
                    setting,
                    source,
                    ordered::collected(registry.sources)[source.source_input()],
                )
            },
        forall|input: InputId| #[trigger]
            ordered::collected(registry.sources).contains_key(input) ==> exists|k: int|
                0 <= k < setting.sources@.len() && (#[trigger] setting.sources@[k]).source_input()
                    == input,
{
    let (ready, uploads, admission) = choose|
        ready: Seq<PreflightModel>,
        uploads: Seq<Seq<WorkingFrame>>,
        admission: (Option<(u32, u32)>, u64),
    |
        {
            &&& #[trigger] source_registry::first_registry(
                ready,
                uploads,
                admission,
                setting.limits,
            ) == registry
            &&& all_taken(setting, ready, admission)
            &&& uploaded_in_order(ready, uploads)
            &&& uploads.len() == ready.len()
        };
    let inputs = source::resolved_inputs(setting.sources@);
    source::lemma_no_duplicate(inputs);
    assert forall|a: int, b: int| 0 <= a < b < ready.len() implies (#[trigger] ready[a]).input != (
    #[trigger] ready[b]).input by {
        assert(inputs[a] == setting.sources@[a].source_input());
        assert(inputs[b] == setting.sources@[b].source_input());
    }
    lemma_rings(ready, uploads, ready.len() as int);
    assert(ready.take(ready.len() as int) =~= ready);
    assert forall|i: int| 0 <= i < setting.sources@.len() implies {
        let source = #[trigger] setting.sources@[i];
        &&& ordered::collected(registry.sources).contains_key(source.source_input())
        &&& is_ring_of(
            setting,
            source,
            ordered::collected(registry.sources)[source.source_input()],
        )
    } by {
        assert(ready[i].input == setting.sources@[i].source_input());
        assert(uploads[i].len() == ready[i].frames.len());
        assert(source_registry::first_prefix(ready[i], uploads[i]) == ordered::collected(
            registry.sources,
        )[ready[i].input]);
    }
    assert forall|input: InputId| #[trigger]
        ordered::collected(registry.sources).contains_key(input) implies exists|k: int|
        0 <= k < setting.sources@.len() && (#[trigger] setting.sources@[k]).source_input()
            == input by {
        let k = choose|k: int| 0 <= k < ready.len() && (#[trigger] ready[k]).input == input;
        assert(setting.sources@[k].source_input() == input);
    }
}

} // verus!
