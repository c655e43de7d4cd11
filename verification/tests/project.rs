use pocketty::middle::{is_event_in_range, FX_TAP_THRESHOLD_MICROS};
use pocketty::pipeline::{
    ProjectState, Step, DEFAULT_BPM, DEFAULT_CUTOFF, DEFAULT_GAIN, DEFAULT_LENGTH, DEFAULT_PITCH,
    DEFAULT_VOLUME,
};
use pocketty::shared::InputEvent;

fn b(x: f32) -> u32 {
    x.to_bits()
}

fn f(x: u32) -> f32 {
    f32::from_bits(x)
}

#[test]
fn defaults() {
    assert_eq!(DEFAULT_GAIN, b(0.8));
    assert_eq!(DEFAULT_PITCH, b(1.0));
    assert_eq!(DEFAULT_CUTOFF, b(20000.0));
    assert_eq!(DEFAULT_LENGTH, 44100);
    assert_eq!(DEFAULT_BPM, b(120.0));
    assert_eq!(DEFAULT_VOLUME, 8);
    assert_eq!(FX_TAP_THRESHOLD_MICROS, 200_000);
    let state = ProjectState::default();
    assert!(state.is_valid());
    assert_eq!(state.selected_sound, 0);
    assert_eq!(state.selected_pattern, 0);
    assert_eq!(f(state.bpm), 120.0);
    assert_eq!(f(state.swing), 0.0);
    assert_eq!(state.master_volume, 8);
    assert!(state.pattern_chain.is_empty());
    for slot in &state.sounds {
        assert!(!slot.is_loaded());
        assert_eq!(slot.sample_path, "");
        assert_eq!(slot.length, 44100);
        assert_eq!(f(slot.gain), 0.8);
        assert_eq!(f(slot.pitch), 1.0);
        assert_eq!(f(slot.filter_cutoff), 20000.0);
        assert_eq!(f(slot.filter_resonance), 0.0);
    }
    for (p, t, i) in [(0usize, 0usize, 0usize), (3, 7, 11), (15, 15, 15), (8, 0, 15)] {
        let s = state.patterns[p].tracks[t].steps[i];
        assert_eq!(s, Step::default());
        assert!(!s.active);
        assert_eq!(s.effect, None);
    }
}

#[test]
fn project_validity() {
    let mut state = ProjectState::default();
    state.selected_sound = 15;
    state.pattern_chain = vec![0, 15, 3];
    assert!(state.is_valid());
    state.selected_sound = 16;
    assert!(!state.is_valid());
    state.selected_sound = 0;
    state.selected_pattern = 200;
    assert!(!state.is_valid());
    state.selected_pattern = 0;
    state.pattern_chain = vec![0, 16];
    assert!(!state.is_valid());
}

#[test]
fn events_in_range() {
    assert!(is_event_in_range(InputEvent::SelectSound(15)));
    assert!(!is_event_in_range(InputEvent::SelectSound(16)));
    assert!(!is_event_in_range(InputEvent::SelectPattern(16)));
    assert!(!is_event_in_range(InputEvent::ChainPattern(255)));
    assert!(!is_event_in_range(InputEvent::ToggleStep(16)));
    assert!(!is_event_in_range(InputEvent::LockStepPitchAt { step: 16, delta: 0 }));
    assert!(!is_event_in_range(InputEvent::LockStepGainAt { step: 16, delta: 0 }));
    assert!(is_event_in_range(InputEvent::GridDown(200)));
    assert!(is_event_in_range(InputEvent::SetVolume(255)));
    assert!(is_event_in_range(InputEvent::TriggerPad(255)));
}

