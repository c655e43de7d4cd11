//! Project data that the sequencer works on.

use vstd::prelude::*;
use crate::sample_id::SampleId;
use crate::shared::{NUM_PATTERNS, NUM_SOUNDS, STEPS_PER_PATTERN};

verus! {

/// The kinds of effect a sound can carry.
#[derive(Clone, Copy, Debug, PartialEq, Eq, Structural)]
pub enum EffectType {
    Distortion,
    Reverb,
    LowPass,
    HighPass,
    BitCrush,
}

/// An effect on a sound. `intensity` is a binary32 bit pattern, 0 to 1.
#[derive(Clone, Copy, Debug, PartialEq, Eq, Structural)]
pub struct Effect {
    pub kind: EffectType,
    pub intensity: u32,
}

impl Effect {
    /// An effect of the given kind and intensity.
    pub fn new(kind: EffectType, intensity: u32) -> (effect: Effect)
        ensures
            effect == (Effect { kind, intensity }),
    {
        Effect { kind, intensity }
    }
}

/// The buttons that are held down, kept by the sequencer so that the
/// control surface need not interpret combinations itself.
#[derive(Clone, Copy, Debug)]
pub struct HeldButtons {
    pub sound: bool,
    pub pattern: bool,
    pub record: bool,
    pub fx: bool,
    pub bpm: bool,
    /// Write held down, as opposed to write mode toggled on: it marks live
    /// recording.
    pub write_held: bool,
    pub grid: [bool; NUM_SOUNDS],
}

impl HeldButtons {
    /// Whether nothing is held.
    pub open spec fn released(self) -> bool {
        &&& !self.sound
        &&& !self.pattern
        &&& !self.record
        &&& !self.fx
        &&& !self.bpm
        &&& !self.write_held
        &&& forall|i: int| 0 <= i < NUM_SOUNDS ==> !self.grid[i]
    }
}

impl Default for HeldButtons {
    fn default() -> (held: HeldButtons)
        ensures
            held.released(),
    {
        HeldButtons {
            sound: false,
            pattern: false,
            record: false,
            fx: false,
            bpm: false,
            write_held: false,
            grid: [false; NUM_SOUNDS],
        }
    }
}

/// Bit pattern of 0.8, the gain of a fresh sound slot.
pub const DEFAULT_GAIN: u32 = 0x3F4C_CCCD;

/// Bit pattern of 1, the pitch of a fresh sound slot.
pub const DEFAULT_PITCH: u32 = 0x3F80_0000;

/// Bit pattern of 20000, the filter cutoff of a fresh sound slot, in hertz.
pub const DEFAULT_CUTOFF: u32 = 0x469C_4000;

/// The length of a fresh sound slot, in frames: one second at 44.1 kHz.
pub const DEFAULT_LENGTH: usize = 44100;

/// Bit pattern of 120, the tempo of a fresh project.
pub const DEFAULT_BPM: u32 = 0x42F0_0000;

/// The master volume of a fresh project, out of 16.
pub const DEFAULT_VOLUME: u8 = 8;

/// One of the sound slots: where its sample is and how a trigger plays it.
/// `gain`, `pitch` and the filter settings are binary32 bit patterns.
#[derive(Debug)]
pub struct SoundSlot {
    pub sample_path: String,
    /// The registered sample, while one is loaded. Not kept across runs.
    pub sample_id: Option<SampleId>,
    /// The length of the loaded sample, in frames. Not kept across runs.
    pub buffer_len: usize,
    pub trim_start: usize,
    pub length: usize,
    pub gain: u32,
    pub pitch: u32,
    pub filter_cutoff: u32,
    pub filter_resonance: u32,
}

/// A sound slot as plain values.
pub ghost struct SoundModel {
    pub sample_path: Seq<char>,
    pub sample_id: Option<SampleId>,
    pub buffer_len: usize,
    pub trim_start: usize,
    pub length: usize,
    pub gain: u32,
    pub pitch: u32,
    pub filter_cutoff: u32,
    pub filter_resonance: u32,
}

impl View for SoundSlot {
    type V = SoundModel;

    open spec fn view(&self) -> SoundModel {
        SoundModel {
            sample_path: self.sample_path@,
            sample_id: self.sample_id,
            buffer_len: self.buffer_len,
            trim_start: self.trim_start,
            length: self.length,
            gain: self.gain,
            pitch: self.pitch,
            filter_cutoff: self.filter_cutoff,
            filter_resonance: self.filter_resonance,
        }
    }
}

impl SoundModel {
    /// The empty slot.
    pub open spec fn empty() -> SoundModel {
        SoundModel {
            sample_path: Seq::empty(),
            sample_id: None,
            buffer_len: 0,
            trim_start: 0,
            length: DEFAULT_LENGTH,
            gain: DEFAULT_GAIN,
            pitch: DEFAULT_PITCH,
            filter_cutoff: DEFAULT_CUTOFF,
            filter_resonance: 0,
        }
    }
}

impl SoundSlot {
    /// Whether a sample is loaded into the slot.
    pub fn is_loaded(&self) -> (loaded: bool)
        ensures
            loaded == self@.sample_id.is_some(),
    {
        self.sample_id.is_some()
    }
}

impl Default for SoundSlot {
    fn default() -> (slot: SoundSlot)
        ensures
            slot@ == SoundModel::empty(),
    {
        SoundSlot {
            sample_path: String::new(),
            sample_id: None,
            buffer_len: 0,
            trim_start: 0,
            length: DEFAULT_LENGTH,
            gain: DEFAULT_GAIN,
            pitch: DEFAULT_PITCH,
            filter_cutoff: DEFAULT_CUTOFF,
            filter_resonance: 0,
        }
    }
}

impl Clone for SoundSlot {
    fn clone(&self) -> (copy: SoundSlot)
        ensures
            copy@ == self@,
    {
        SoundSlot {
            sample_path: self.sample_path.clone(),
            sample_id: self.sample_id,
            buffer_len: self.buffer_len,
            trim_start: self.trim_start,
            length: self.length,
            gain: self.gain,
            pitch: self.pitch,
            filter_cutoff: self.filter_cutoff,
            filter_resonance: self.filter_resonance,
        }
    }
}

/// One step of a track. A lock replaces the sound's own setting while the
/// step plays; locks are binary32 bit patterns.
#[derive(Clone, Copy, Debug, PartialEq, Eq, Structural)]
pub struct Step {
    pub active: bool,
    pub pitch_lock: Option<u32>,
    pub gain_lock: Option<u32>,
    pub filter_cutoff_lock: Option<u32>,
    pub filter_resonance_lock: Option<u32>,
    /// The effect saved on the step, 1 to 15.
    pub effect: Option<u8>,
}

impl Step {
    /// The step that is off and locks nothing.
    pub open spec fn blank() -> Step {
        Step {
            active: false,
            pitch_lock: None,
            gain_lock: None,
            filter_cutoff_lock: None,
            filter_resonance_lock: None,
            effect: None,
        }
    }
}

impl Default for Step {
    fn default() -> (step: Step)
        ensures
            step == Step::blank(),
    {
        Step {
            active: false,
            pitch_lock: None,
            gain_lock: None,
            filter_cutoff_lock: None,
            filter_resonance_lock: None,
            effect: None,
        }
    }
}

/// The steps of one sound in a pattern.
#[derive(Clone, Copy, Debug)]
pub struct Track {
    pub steps: [Step; STEPS_PER_PATTERN],
}

/// A track of blank steps.
pub open spec fn blank_track() -> Seq<Step> {
    Seq::new(STEPS_PER_PATTERN as nat, |i: int| Step::blank())
}

impl View for Track {
    type V = Seq<Step>;

    open spec fn view(&self) -> Seq<Step> {
        self.steps@
    }
}

impl Default for Track {
    fn default() -> (track: Track)
        ensures
            track@ == blank_track(),
    {
        let step = Step::default();
        let track = Track { steps: [step; STEPS_PER_PATTERN] };
        assert(track@ =~= blank_track());
        track
    }
}

/// A pattern: one track for each sound.
#[derive(Clone, Copy, Debug)]
pub struct Pattern {
    pub tracks: [Track; NUM_SOUNDS],
}

/// A pattern of blank tracks.
pub open spec fn blank_pattern() -> Seq<Seq<Step>> {
    Seq::new(NUM_SOUNDS as nat, |i: int| blank_track())
}

impl View for Pattern {
    type V = Seq<Seq<Step>>;

    open spec fn view(&self) -> Seq<Seq<Step>> {
        Seq::new(NUM_SOUNDS as nat, |i: int| self.tracks[i]@)
    }
}

impl Default for Pattern {
    fn default() -> (pattern: Pattern)
        ensures
            pattern@ == blank_pattern(),
    {
        let track = Track::default();
        let pattern = Pattern { tracks: [track; NUM_SOUNDS] };
        assert(pattern@ =~= blank_pattern());
        pattern
    }
}

/// Everything that is saved of a project. `bpm` and `swing` are binary32
/// bit patterns.
#[derive(Debug)]
pub struct ProjectState {
    pub sounds: [SoundSlot; NUM_SOUNDS],
    pub selected_sound: u8,
    /// The patterns, sixteen of them.
    pub patterns: Vec<Pattern>,
    pub selected_pattern: u8,
    pub bpm: u32,
    pub current_step: u8,
    pub swing: u32,
    /// The master volume, out of 16.
    pub master_volume: u8,
    /// The patterns to play one after the other.
    pub pattern_chain: Vec<u8>,
}

/// A project as plain values.
pub ghost struct ProjectModel {
    pub sounds: Seq<SoundModel>,
    pub selected_sound: u8,
    pub patterns: Seq<Seq<Seq<Step>>>,
    pub selected_pattern: u8,
    pub bpm: u32,
    pub current_step: u8,
    pub swing: u32,
    pub master_volume: u8,
    pub pattern_chain: Seq<u8>,
}

impl View for ProjectState {
    type V = ProjectModel;

    open spec fn view(&self) -> ProjectModel {
        ProjectModel {
            sounds: Seq::new(NUM_SOUNDS as nat, |i: int| self.sounds[i]@),
            selected_sound: self.selected_sound,
            patterns: self.patterns@.map_values(|pattern: Pattern| pattern@),
            selected_pattern: self.selected_pattern,
            bpm: self.bpm,
            current_step: self.current_step,
            swing: self.swing,
            master_volume: self.master_volume,
            pattern_chain: self.pattern_chain@,
        }
    }
}

impl ProjectModel {
    /// The fresh project: empty slots, blank patterns, 120 BPM, no swing,
    /// half volume.
    pub open spec fn fresh() -> ProjectModel {
        ProjectModel {
            sounds: Seq::new(NUM_SOUNDS as nat, |i: int| SoundModel::empty()),
            selected_sound: 0,
            patterns: Seq::new(NUM_PATTERNS as nat, |i: int| blank_pattern()),
            selected_pattern: 0,
            bpm: DEFAULT_BPM,
            current_step: 0,
            swing: 0,
            master_volume: DEFAULT_VOLUME,
            pattern_chain: Seq::empty(),
        }
    }

    /// Whether the project has all its patterns and every index in it names
    /// something that exists: the selected sound, the selected pattern and
    /// each pattern of the chain.
    pub open spec fn in_range(self) -> bool {
        &&& self.patterns.len() == NUM_PATTERNS
        &&& self.selected_sound < NUM_SOUNDS
        &&& self.selected_pattern < NUM_PATTERNS
        &&& forall|i: int|
            0 <= i < self.pattern_chain.len() ==> #[trigger] self.pattern_chain[i] < NUM_PATTERNS
    }
}

impl ProjectState {
    /// Whether the project has all its patterns and every index in it names
    /// something that exists.
    pub fn is_valid(&self) -> (valid: bool)
        ensures
            valid == self@.in_range(),
    {
        if self.patterns.len() != NUM_PATTERNS || self.selected_sound as usize >= NUM_SOUNDS
            || self.selected_pattern as usize >= NUM_PATTERNS {
            return false;
        }
        let mut i: usize = 0;
        while i < self.pattern_chain.len()
            invariant
                i <= self.pattern_chain.len(),
                forall|j: int| 0 <= j < i ==> #[trigger] self.pattern_chain@[j] < NUM_PATTERNS,
            decreases self.pattern_chain.len() - i,
        {
            if self.pattern_chain[i] as usize >= NUM_PATTERNS {
                assert(!(self@.pattern_chain[i as int] < NUM_PATTERNS));
                return false;
            }
            i += 1;
        }
        true
    }
}

impl Default for ProjectState {
    fn default() -> (state: ProjectState)
        ensures
            state@ == ProjectModel::fresh(),
    {
        let mut patterns: Vec<Pattern> = Vec::new();
        let mut i: usize = 0;
        while i < NUM_PATTERNS
            invariant
                i <= NUM_PATTERNS,
                patterns@.len() == i,
                forall|j: int| 0 <= j < i ==> (#[trigger] patterns@[j])@ == blank_pattern(),
            decreases NUM_PATTERNS - i,
        {
            patterns.push(Pattern::default());
            i += 1;
        }
        let state = ProjectState {
            sounds: [
                SoundSlot::default(),
                SoundSlot::default(),
                SoundSlot::default(),
                SoundSlot::default(),
                SoundSlot::default(),
                SoundSlot::default(),
                SoundSlot::default(),
                SoundSlot::default(),
                SoundSlot::default(),
                SoundSlot::default(),
                SoundSlot::default(),
                SoundSlot::default(),
                SoundSlot::default(),
                SoundSlot::default(),
                SoundSlot::default(),
                SoundSlot::default(),
            ],
            selected_sound: 0,
            patterns,
            selected_pattern: 0,
            bpm: DEFAULT_BPM,
            current_step: 0,
            swing: 0,
            master_volume: DEFAULT_VOLUME,
            pattern_chain: Vec::new(),
        };
        assert(state@.sounds =~= ProjectModel::fresh().sounds);
        assert(state@.patterns =~= ProjectModel::fresh().patterns);
        state
    }
}

} // verus!
