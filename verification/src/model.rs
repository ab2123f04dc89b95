//! Plain values that describe a project and the frames of its program.
use vstd::prelude::*;

use crate::ordered::Ranked;

verus! {

/// Identifies one input of a project.
#[derive(Clone, Copy, Debug, PartialEq, Eq, PartialOrd, Ord, Hash, Structural)]
pub struct InputId(pub u128);

/// Identifies one scene of a project.
#[derive(Clone, Copy, Debug, PartialEq, Eq, PartialOrd, Ord, Hash, Structural)]
pub struct SceneId(pub u128);

/// Identifies one Stinger slot of the switcher.
#[derive(Clone, Copy, Debug, PartialEq, Eq, PartialOrd, Ord, Hash, Structural)]
pub struct StingerSlotId(pub u8);

/// Identifies the clock that stamps a media source.
#[derive(Clone, Copy, Debug, PartialEq, Eq, PartialOrd, Ord, Hash, Structural)]
pub struct ClockDomainId(pub u128);

/// A failure that another component reported, under the number by which the caller
/// finds its details again.
#[derive(Clone, Copy, Debug, PartialEq, Eq, Structural)]
pub struct OutsideFailure(pub u64);

impl Ranked for InputId {
    open spec fn rank(self) -> int {
        self.0 as int
    }

    proof fn rank_is_injective(a: Self, b: Self) {
    }

    fn ranks_below(&self, other: &Self) -> (below: bool) {
        self.0 < other.0
    }
}

impl Ranked for SceneId {
    open spec fn rank(self) -> int {
        self.0 as int
    }

    proof fn rank_is_injective(a: Self, b: Self) {
    }

    fn ranks_below(&self, other: &Self) -> (below: bool) {
        self.0 < other.0
    }
}

impl Ranked for StingerSlotId {
    open spec fn rank(self) -> int {
        self.0 as int
    }

    proof fn rank_is_injective(a: Self, b: Self) {
    }

    fn ranks_below(&self, other: &Self) -> (below: bool) {
        self.0 < other.0
    }
}

/// A frame rate in frames per second.
#[derive(Clone, Copy, Debug, PartialEq, Eq, Structural)]
pub struct FrameRate {
    pub numerator: u32,
    pub denominator: u32,
}

impl FrameRate {
    /// Whether both terms of the rate are positive.
    pub open spec fn wf(self) -> bool {
        self.numerator > 0 && self.denominator > 0
    }
}

/// What an input shows and plays.
#[derive(Clone, Copy, Debug, PartialEq, Eq, Structural)]
pub enum InputKind {
    /// A composed scene, which takes its audio from another input or is silent.
    Scene { scene_id: SceneId, audio_source: Option<InputId> },
    /// Media that is realized on its own.
    Media,
}

/// One input of a project.
#[derive(Clone, Copy, Debug, PartialEq, Eq, Structural)]
pub struct Input {
    pub id: InputId,
    pub kind: InputKind,
}

/// What a scene layer shows.
#[derive(Clone, Copy, Debug, PartialEq, Eq, Structural)]
pub enum SourceRef {
    Input(InputId),
    Scene(SceneId),
}

/// A rotation in quarter turns.
#[derive(Clone, Copy, Debug, PartialEq, Eq, Structural)]
pub enum Rotation {
    Deg0,
    Deg90,
    Deg180,
    Deg270,
}

/// Where a layer is placed on the canvas.
#[derive(Clone, Copy, Debug, PartialEq, Eq, Structural)]
pub struct LayerGeometry {
    pub translation_x: i32,
    pub translation_y: i32,
    pub width: u32,
    pub height: u32,
    pub rotation: Rotation,
}

/// The part of its source that a layer shows.
#[derive(Clone, Copy, Debug, PartialEq, Eq, Structural)]
pub struct CropRect {
    pub x: u32,
    pub y: u32,
    pub width: u32,
    pub height: u32,
}

/// The rectangle outside which, or inside which, a layer is hidden.
#[derive(Clone, Copy, Debug, PartialEq, Eq, Structural)]
pub struct RectMask {
    pub x: u32,
    pub y: u32,
    pub width: u32,
    pub height: u32,
    pub invert: bool,
}

/// One layer of a scene.
#[derive(Clone, Copy, Debug, PartialEq, Eq, Structural)]
pub struct Layer {
    pub source: SourceRef,
    pub enabled: bool,
    pub geometry: LayerGeometry,
    pub crop: Option<CropRect>,
    pub mask: Option<RectMask>,
    pub opacity: u8,
    pub z_order: i32,
}

/// A color with an alpha channel.
#[derive(Clone, Copy, Debug, PartialEq, Eq, Structural)]
pub struct Rgba8 {
    pub red: u8,
    pub green: u8,
    pub blue: u8,
    pub alpha: u8,
}

/// One scene of a project.
#[derive(Debug)]
pub struct Scene {
    pub id: SceneId,
    pub background: Rgba8,
    pub layers: Vec<Layer>,
}

/// What is heard while a Stinger plays.
#[derive(Clone, Copy, Debug, PartialEq, Eq, Structural)]
pub enum StingerAudioPolicy {
    Muted,
    StingerOnly,
    MixWithProgram,
}

/// One Stinger of a project.
#[derive(Clone, Copy, Debug, PartialEq, Eq, Structural)]
pub struct StingerConfig {
    /// The number of the slot as the project states it.
    pub slot_number: u8,
    /// The slot of that number, where the switcher has one.
    pub slot: Option<StingerSlotId>,
    pub media_input: InputId,
    pub preload: bool,
    pub cut_point_frames: u32,
    pub audio_policy: StingerAudioPolicy,
}

/// The audio settings of one input.
#[derive(Clone, Copy, Debug, PartialEq, Eq, Structural)]
pub struct InputAudioStripState {
    pub gain_milli_db: i32,
    pub muted: bool,
    pub follow_video: bool,
}

/// The audio settings of one input, with the input they belong to.
#[derive(Clone, Copy, Debug, PartialEq, Eq, Structural)]
pub struct InputAudioStrip {
    pub input: InputId,
    pub state: InputAudioStripState,
}

/// What a native realization needs to know of a project.
#[derive(Debug)]
pub struct Project {
    pub inputs: Vec<Input>,
    pub scenes: Vec<Scene>,
    pub stingers: Vec<StingerConfig>,
    pub input_audio_strips: Vec<InputAudioStrip>,
    pub frame_rate: FrameRate,
    pub width: u32,
    pub height: u32,
}

/// How the switcher moves from one input to the next.
#[derive(Clone, Copy, Debug, PartialEq, Eq, Structural)]
pub enum SwitcherTransitionKind {
    Fade,
    AlphaFade,
    Wipe,
    Slide,
    Zoom,
    Stinger(StingerSlotId),
}

/// What the program shows during one frame.
#[derive(Clone, Copy, Debug, PartialEq, Eq, Structural)]
pub struct ProgramFrame {
    pub primary: InputId,
    pub secondary: Option<InputId>,
    pub transition_kind: Option<SwitcherTransitionKind>,
    pub mix_numerator: u32,
    pub mix_denominator: u32,
    pub mix_start_numerator: u32,
    pub mix_end_numerator: u32,
}

/// How far the program has faded to black.
#[derive(Clone, Copy, Debug, PartialEq, Eq, Structural)]
pub struct FadeToBlackPosition {
    pub numerator: u32,
    pub denominator: u32,
}

/// The fade to black at the two ends of one frame.
#[derive(Clone, Copy, Debug, PartialEq, Eq, Structural)]
pub struct FadeToBlackFrame {
    pub interval_start: FadeToBlackPosition,
    pub interval_end: FadeToBlackPosition,
}

/// One frame that the engine has decided.
#[derive(Clone, Copy, Debug, PartialEq, Eq, Structural)]
pub struct FrameResult {
    pub frame: u64,
    pub deadline_ns: u64,
    pub program: ProgramFrame,
    pub fade_to_black: FadeToBlackFrame,
}

} // verus!
