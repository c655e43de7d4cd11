//! What the control surface and the sequencer share: pads, input events,
//! LEDs and parameter pages.

use vstd::prelude::*;

verus! {

/// The number of pads on the grid.
pub const NUM_PADS: usize = 16;

/// The number of patterns in a project.
pub const NUM_PATTERNS: usize = 16;

/// The number of sound slots in a project.
pub const NUM_SOUNDS: usize = 16;

/// The number of steps in a pattern.
pub const STEPS_PER_PATTERN: usize = 16;

/// A pad of the grid, counted from the top left.
#[derive(Clone, Copy, Debug, PartialEq, Eq, Hash, Structural)]
pub struct PadId(pub u8);

/// What a key press asks of the application.
#[derive(Clone, Copy, Debug, PartialEq, Eq, Structural)]
pub enum UiAction {
    PadDown(PadId),
    Quit,
}

/// An event from the control surface. Pads and steps are counted from
/// zero; knob turns carry their amount as a binary32 bit pattern.
#[derive(Clone, Copy, Debug, PartialEq, Eq, Structural)]
pub enum InputEvent {
    GridDown(u8),
    GridUp(u8),
    SoundDown,
    SoundUp,
    PatternDown,
    PatternUp,
    WriteDown,
    WriteUp,
    PlayPress,
    RecordDown,
    RecordUp,
    FxDown,
    FxUp,
    BpmDown,
    BpmUp,
    KnobTurnA(u32),
    KnobTurnB(u32),
    Quit,
    /// Sound held, pad pressed.
    SelectSound(u8),
    /// Pattern held, pad pressed while stopped.
    SelectPattern(u8),
    /// Pattern held, pad pressed while playing.
    ChainPattern(u8),
    /// BPM held, pad pressed: the volume, 1 to 16.
    SetVolume(u8),
    /// Write mode, pad pressed while stopped.
    ToggleStep(u8),
    /// Write mode, pad pressed while playing.
    LiveRecordStep(u8),
    /// FX held, pad pressed while playing: the effect, 1 to 15.
    SetRealtimeEffect(u8),
    /// FX held, last pad pressed while playing.
    ClearRealtimeEffect,
    /// Record and sound held.
    DeleteSound,
    /// A pad pressed with nothing held: play it melodically.
    TriggerPad(u8),
    /// Clear the selected sound's track in the selected pattern.
    ClearTrack,
    AdjustSwing(u32),
    AdjustBpm(u32),
    PitchLockStep(u32),
    GainLockStep(u32),
    /// A step pad held in write mode while stopped, knob A turned.
    LockStepPitchAt { step: u8, delta: u32 },
    /// A step pad held in write mode while stopped, knob B turned.
    LockStepGainAt { step: u8, delta: u32 },
    AdjustPitch(u32),
    AdjustGain(u32),
    AdjustFilterCutoff(u32),
    AdjustFilterResonance(u32),
    AdjustTrimStart(u32),
    AdjustTrimLength(u32),
}

/// How a pad's LED is lit.
#[derive(Clone, Copy, Debug, PartialEq, Eq, Structural)]
pub enum LedState {
    Off,
    OnMedium,
    OnHigh,
    Blink,
}

/// The parameter page that the knobs work on.
#[derive(Clone, Copy, Debug, PartialEq, Eq, Structural)]
pub enum ParamPage {
    Tone,
    Filter,
    Trim,
}

impl ParamPage {
    /// The page after this one: tone, filter, trim and round again.
    pub open spec fn successor(self) -> ParamPage {
        match self {
            ParamPage::Tone => ParamPage::Filter,
            ParamPage::Filter => ParamPage::Trim,
            ParamPage::Trim => ParamPage::Tone,
        }
    }

    /// The labels of knob A and knob B on this page.
    pub open spec fn labels(self) -> (Seq<char>, Seq<char>) {
        match self {
            ParamPage::Tone => ("PITCH"@, "GAIN"@),
            ParamPage::Filter => ("CUTOFF"@, "RESO"@),
            ParamPage::Trim => ("START"@, "LENGTH"@),
        }
    }

    /// The page after this one.
    pub fn next(self) -> (page: ParamPage)
        ensures
            page == self.successor(),
    {
        match self {
            ParamPage::Tone => ParamPage::Filter,
            ParamPage::Filter => ParamPage::Trim,
            ParamPage::Trim => ParamPage::Tone,
        }
    }

    /// The labels of knob A and knob B on this page.
    pub fn knob_labels(self) -> (labels: (&'static str, &'static str))
        ensures
            labels.0@ == self.labels().0,
            labels.1@ == self.labels().1,
    {
        match self {
            ParamPage::Tone => ("PITCH", "GAIN"),
            ParamPage::Filter => ("CUTOFF", "RESO"),
            ParamPage::Trim => ("START", "LENGTH"),
        }
    }
}

/// What the screen says in its text line.
#[derive(Clone, Copy, Debug, PartialEq, Eq, Structural)]
pub enum DisplayText {
    /// The master volume, while BPM is held.
    Volume(u8),
    /// The selected sound, counted from one, while sound is held.
    Sound(u8),
    /// The selected pattern, counted from one, while pattern is held.
    Pattern(u8),
    /// The tempo, as a binary32 bit pattern.
    Bpm(u32),
}

/// Everything the screen shows. The tempo and the knob values are binary32
/// bit patterns; the knob values run from 0 to 1.
#[derive(Clone, Copy, Debug)]
pub struct DisplayState {
    pub leds: [LedState; STEPS_PER_PATTERN],
    /// The step that is playing, while the transport runs.
    pub playing_step: Option<u8>,
    pub write_mode: bool,
    pub playing: bool,
    pub param_page: ParamPage,
    pub selected_sound: u8,
    pub selected_pattern: u8,
    pub bpm: u32,
    pub display_text: DisplayText,
    pub knob_a_label: &'static str,
    pub knob_b_label: &'static str,
    pub knob_a_value: u32,
    pub knob_b_value: u32,
}

/// Three pages on, the knobs are back where they were.
pub proof fn lemma_pages_cycle(page: ParamPage)
    ensures
        page.successor().successor().successor() == page,
        page.successor() != page,
{
}

} // verus!
