//! The lanes of a project: one for the program, one for each clip of a Stinger that is heard.
use vstd::prelude::*;

use crate::audio_limits;
use crate::audio_limits::{
    partition_native_audio_limits, partition_stinger_audio_limits, NativeAudioLimits,
    NativeMasterError, MAX_NATIVE_AUDIO_STRIPS,
};
use crate::audio_master::{LaneModel, NativeMasterLane};
use crate::audio_mix;
use crate::audio_mix::{native_input_state, StripState};
use crate::audio_playback;
use crate::audio_playback::{NativeMasterRuntime, NativeStingerAudioPlayback, PlaybackModel};
use crate::audio_setup;
use crate::audio_setup::{check_strip_count, requested_stinger_inputs, split_stinger_inputs};
use crate::model::InputId;
use crate::ordered;
use crate::ordered::OrderedMap;
use crate::project_plan::NativeProjectPlan;

verus! {

/// The retained bounds of the program and of all clips together.
pub open spec fn shared_limits(limits: NativeAudioLimits, has_stinger_audio: bool) -> (
    NativeAudioLimits,
    NativeAudioLimits,
) {
    if !has_stinger_audio {
        (limits, limits)
    } else {
        let blocks = limits.max_retained_blocks / 2;
        let samples = limits.max_retained_samples / 2;
        let bytes = limits.max_retained_bytes / 2;
        (
            NativeAudioLimits {
                max_retained_blocks: blocks as usize,
                max_retained_samples: samples as usize,
                max_retained_bytes: bytes as usize,
                ..limits
            },
            NativeAudioLimits {
                max_retained_blocks: (limits.max_retained_blocks - blocks) as usize,
                max_retained_samples: (limits.max_retained_samples - samples) as usize,
                max_retained_bytes: (limits.max_retained_bytes - bytes) as usize,
                ..limits
            },
        )
    }
}

/// The bounds of each of so many clips.
pub open spec fn clip_share(limits: NativeAudioLimits, clips: usize) -> NativeAudioLimits {
    NativeAudioLimits {
        max_retained_blocks: (limits.max_retained_blocks / clips) as usize,
        max_retained_samples: (limits.max_retained_samples / clips) as usize,
        max_retained_bytes: (limits.max_retained_bytes / clips) as usize,
        sink_blocks: 1,
        ..limits
    }
}

/// Which lanes a project needs, and what they may hold.
#[derive(Debug)]
pub struct ProjectAudioPlan {
    /// The bounds of the program.
    pub ordinary_limits: NativeAudioLimits,
    /// The bounds of all clips together.
    pub stinger_limits: NativeAudioLimits,
    /// The media of Stingers that have audio.
    pub heard: Vec<InputId>,
    /// The media of Stingers that have none.
    pub silent: Vec<InputId>,
}

/// What a plan holds.
#[verifier::ext_equal]
pub struct ProjectAudioModel {
    pub ordinary_limits: NativeAudioLimits,
    pub stinger_limits: NativeAudioLimits,
    pub heard: Seq<InputId>,
    pub silent: Seq<InputId>,
}

impl View for ProjectAudioPlan {
    type V = ProjectAudioModel;

    open spec fn view(&self) -> ProjectAudioModel {
        ProjectAudioModel {
            ordinary_limits: self.ordinary_limits,
            stinger_limits: self.stinger_limits,
            heard: self.heard@,
            silent: self.silent@,
        }
    }
}

/// Which lanes a project needs, given which inputs have a source and which of the media have
/// audio.
pub open spec fn project_audio(
    project: NativeProjectPlan,
    resolved: Seq<InputId>,
    has_audio: Seq<Result<bool, NativeMasterError>>,
    limits: NativeAudioLimits,
) -> Result<ProjectAudioModel, NativeMasterError> {
    if project.audio_routes.entries@.len() > MAX_NATIVE_AUDIO_STRIPS {
        Err(NativeMasterError::BoundsExceeded)
    } else {
        match audio_setup::split_media(
            audio_setup::heard_media(project.stingers.entries@),
            resolved,
            has_audio,
            0,
            Seq::empty(),
            Seq::empty(),
        ) {
            Err(error) => Err(error),
            Ok((heard, silent)) => Ok(
                ProjectAudioModel {
                    ordinary_limits: shared_limits(limits, heard.len() > 0).0,
                    stinger_limits: shared_limits(limits, heard.len() > 0).1,
                    heard,
                    silent,
                },
            ),
        }
    }
}

/// Plans which lanes a project needs. `has_audio` tells of each of the media that
/// [`requested_stinger_inputs`] lists whether it has audio.
pub fn plan_project_audio(
    project: &NativeProjectPlan,
    resolved: &Vec<InputId>,
    has_audio: &Vec<Result<bool, NativeMasterError>>,
    limits: NativeAudioLimits,
) -> (plan: Result<ProjectAudioPlan, NativeMasterError>)
    requires
        has_audio@.len() == audio_setup::heard_media(project.stingers.entries@).len(),
    ensures
        match plan {
            Ok(plan) => project_audio(*project, resolved@, has_audio@, limits) == Ok::<
                ProjectAudioModel,
                NativeMasterError,
            >(plan@),
            Err(error) => project_audio(*project, resolved@, has_audio@, limits) == Err::<
                ProjectAudioModel,
                NativeMasterError,
            >(error),
        },
{
    match check_strip_count(project) {
        Err(error) => {
            return Err(error);
        },
        Ok(()) => {},
    }
    let requested: Vec<InputId> = requested_stinger_inputs(project);
    let (heard, silent): (Vec<InputId>, Vec<InputId>) = match split_stinger_inputs(
        &requested,
        resolved,
        has_audio,
    ) {
        Err(error) => {
            return Err(error);
        },
        Ok(split) => split,
    };
    let (ordinary_limits, stinger_limits): (NativeAudioLimits, NativeAudioLimits) =
        match partition_native_audio_limits(limits, heard.len() > 0) {
        Err(error) => {
            return Err(error);
        },
        Ok(parts) => parts,
    };
    Ok(ProjectAudioPlan { ordinary_limits, stinger_limits, heard, silent })
}

/// The lane of a clip, which is heard through the program and not by itself.
pub open spec fn clip_lane_of(lane: LaneModel) -> LaneModel {
    LaneModel { collect_output: false, ..lane }
}

/// Makes a lane that was set up for the media of a Stinger the lane of its clip, and finds the
/// settings of its strip.
pub fn clip_lane(project: &NativeProjectPlan, input: InputId, lane: NativeMasterLane) -> (clip: Result<
    (NativeMasterLane, StripState),
    NativeMasterError,
>)
    requires
        lane.wf(),
        project.wf(),
        audio_mix::gains_are_bounded(*project),
    ensures
        match clip {
            Ok((clip, state)) => {
                &&& audio_mix::strip_state(*project, input) == Ok::<StripState, NativeMasterError>(
                    state,
                )
                &&& clip.wf()
                &&& clip@ == clip_lane_of(lane@)
            },
            Err(error) => audio_mix::strip_state(*project, input) == Err::<
                StripState,
                NativeMasterError,
            >(error),
        },
{
    match native_input_state(project, input) {
        Err(error) => Err(error),
        Ok(state) => {
            let mut clip: NativeMasterLane = lane;
            clip.collect_output = false;
            Ok((clip, state))
        },
    }
}

impl ProjectAudioPlan {
    /// What the lane of each clip may hold, if any clip is heard.
    pub fn clip_limits(&self) -> (limits: Option<NativeAudioLimits>)
        ensures
            limits == (if self@.heard.len() == 0 {
                None
            } else {
                Some(clip_share(self@.stinger_limits, self@.heard.len() as usize))
            }),
    {
        match partition_stinger_audio_limits(self.stinger_limits, self.heard.len()) {
            Err(_) => None,
            Ok(limits) => Some(limits),
        }
    }

    /// Joins the lane of the program and the lanes of the clips.
    pub fn join(self, lane: NativeMasterLane, masters: OrderedMap<InputId, NativeMasterLane>) -> (runtime:
        NativeMasterRuntime)
        requires
            lane.wf(),
            masters.wf(),
            forall|i: int| 0 <= i < masters.entries@.len() ==> (#[trigger] masters.entries@[i]).1.wf(),
        ensures
            runtime.wf(),
            runtime.lane@ == lane@,
            match runtime.stinger_audio {
                None => self@.heard.len() == 0 && self@.silent.len() == 0,
                Some(playback) => {
                    &&& self@.heard.len() > 0 || self@.silent.len() > 0
                    &&& playback@ == (PlaybackModel {
                        masters: audio_playback::lanes_of(masters.entries@),
                        silent_inputs: self@.silent,
                        active_trigger: None,
                        ready: None,
                    })
                },
            },
    {
        if self.heard.len() == 0 && self.silent.len() == 0 {
            return NativeMasterRuntime { lane, stinger_audio: None };
        }
        let playback: NativeStingerAudioPlayback = NativeStingerAudioPlayback {
            masters,
            silent_inputs: self.silent,
            active_trigger: None,
            ready: None,
        };
        proof {
            masters.lemma_entries();
            assert(playback@.inputs() =~= ordered::entry_keys(masters.entries@));
            assert forall|i: int| 0 <= i < playback@.masters.len() implies (
            #[trigger] playback@.masters[i]).1.wf() by {
                assert(masters.entries@[i].1.wf());
            }
        }
        NativeMasterRuntime { lane, stinger_audio: Some(playback) }
    }
}

/// The program and all clips together may hold no more than the project may.
pub proof fn lanes_share_the_bounds(limits: NativeAudioLimits, clips: usize)
    ensures
        ({
            let (ordinary, stingers) = shared_limits(limits, clips > 0);
            let clip = clip_share(stingers, clips);
            &&& clips == 0 ==> ordinary == limits
            &&& clips > 0 ==> {
                &&& ordinary.max_retained_blocks + clips * clip.max_retained_blocks
                    <= limits.max_retained_blocks
                &&& ordinary.max_retained_samples + clips * clip.max_retained_samples
                    <= limits.max_retained_samples
                &&& ordinary.max_retained_bytes + clips * clip.max_retained_bytes
                    <= limits.max_retained_bytes
            }
        }),
{
    if clips > 0 {
        let stingers = shared_limits(limits, true).1;
        audio_limits::stinger_shares_fit(stingers.max_retained_blocks, clips);
        audio_limits::stinger_shares_fit(stingers.max_retained_samples, clips);
        audio_limits::stinger_shares_fit(stingers.max_retained_bytes, clips);
        let clip = clip_share(stingers, clips);
        vstd::arithmetic::mul::lemma_mul_is_commutative(
            clips as int,
            clip.max_retained_blocks as int,
        );
        vstd::arithmetic::mul::lemma_mul_is_commutative(
            clips as int,
            clip.max_retained_samples as int,
        );
        vstd::arithmetic::mul::lemma_mul_is_commutative(
            clips as int,
            clip.max_retained_bytes as int,
        );
    }
}

/// Each of the media of a project's Stingers has a source, and is heard where it has audio and
/// silent where it has none.
pub proof fn clips_are_heard_or_silent(
    project: NativeProjectPlan,
    resolved: Seq<InputId>,
    has_audio: Seq<Result<bool, NativeMasterError>>,
    limits: NativeAudioLimits,
    i: int,
)
    requires
        has_audio.len() == audio_setup::heard_media(project.stingers.entries@).len(),
        0 <= i < has_audio.len(),
    ensures
        project_audio(project, resolved, has_audio, limits) matches Ok(plan) ==> {
            let media = audio_setup::heard_media(project.stingers.entries@)[i];
            &&& resolved.contains(media)
            &&& has_audio[i] == Ok::<bool, NativeMasterError>(true) ==> plan.heard.contains(media)
            &&& has_audio[i] == Ok::<bool, NativeMasterError>(false) ==> plan.silent.contains(media)
            &&& has_audio[i] is Ok
        },
{
    let requested = audio_setup::heard_media(project.stingers.entries@);
    lemma_split(requested, resolved, has_audio, 0, Seq::empty(), Seq::empty(), i);
}

proof fn lemma_split(
    requested: Seq<InputId>,
    resolved: Seq<InputId>,
    has_audio: Seq<Result<bool, NativeMasterError>>,
    from: int,
    heard: Seq<InputId>,
    silent: Seq<InputId>,
    i: int,
)
    requires
        0 <= from,
        0 <= i < requested.len(),
        from > i ==> resolved.contains(requested[i]) && (has_audio[i] == Ok::<
            bool,
            NativeMasterError,
        >(true) && heard.contains(requested[i]) || has_audio[i] == Ok::<bool, NativeMasterError>(
            false,
        ) && silent.contains(requested[i])),
    ensures
        audio_setup::split_media(requested, resolved, has_audio, from, heard, silent) matches Ok(
            (all_heard, all_silent),
        ) ==> resolved.contains(requested[i]) && (has_audio[i] == Ok::<bool, NativeMasterError>(
            true,
        ) && all_heard.contains(requested[i]) || has_audio[i] == Ok::<bool, NativeMasterError>(
            false,
        ) && all_silent.contains(requested[i])),
    decreases requested.len() - from,
{
    if from < requested.len() {
        assert(heard.push(requested[from])[heard.len() as int] == requested[from]);
        assert(silent.push(requested[from])[silent.len() as int] == requested[from]);
        if heard.contains(requested[i]) {
            let k = heard.index_of(requested[i]);
            assert(heard.push(requested[from])[k] == requested[i]);
        }
        if silent.contains(requested[i]) {
            let k = silent.index_of(requested[i]);
            assert(silent.push(requested[from])[k] == requested[i]);
        }
        if resolved.contains(requested[from]) {
            match has_audio[from] {
                Err(_) => {},
                Ok(true) => {
                    lemma_split(
                        requested,
                        resolved,
                        has_audio,
                        from + 1,
                        heard.push(requested[from]),
                        silent,
                        i,
                    );
                },
                Ok(false) => {
                    lemma_split(
                        requested,
                        resolved,
                        has_audio,
                        from + 1,
                        heard,
                        silent.push(requested[from]),
                        i,
                    );
                },
            }
        }
    }
}

} // verus!
