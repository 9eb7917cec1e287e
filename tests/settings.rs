use tjam::envelope::Adsr;
use tjam::settings::{AudioState, SettingsChange, Waveform, VOLUME_FULL};

#[test]
fn set_volume_clamps() {
    let mut st = AudioState::new(Adsr::new(10, 10, 500_000, 10));
    assert_eq!(st.get_volume(), VOLUME_FULL);
    st.set_volume(1_500_000);
    assert_eq!(st.get_volume(), 1_000_000);
    st.set_volume(-1_000_000);
    assert_eq!(st.get_volume(), 0);
    st.set_volume(300_000);
    assert_eq!(st.get_volume(), 300_000);
}

#[test]
fn toggle_muted_twice_restores_state() {
    let mut st = AudioState::new(Adsr::new(10, 10, 500_000, 10));
    assert!(!st.is_muted());
    assert!(st.toggle_muted());
    assert!(st.is_muted());
    assert!(!st.toggle_muted());
    assert!(!st.is_muted());
}

#[test]
fn changes_are_queued_only_for_listeners() {
    let mut st = AudioState::new(Adsr::new(10, 10, 500_000, 10));
    st.set_volume(10);
    st.toggle_muted();
    assert!(st.take_changes().is_empty());
    st.set_volume_notify();
    st.set_volume(20);
    st.toggle_muted();
    assert_eq!(st.take_changes(), vec![SettingsChange::Volume]);
    st.set_muted_notify();
    st.set_muted(false);
    st.set_volume(30);
    assert_eq!(st.take_changes(), vec![SettingsChange::Muted, SettingsChange::Volume]);
    assert!(st.take_changes().is_empty());
}

#[test]
fn source_and_adsr_apply_without_notification() {
    let mut st = AudioState::new(Adsr::new(10, 10, 500_000, 10));
    st.set_volume_notify();
    st.set_muted_notify();
    assert_eq!(st.get_source(), Waveform::Sine);
    st.set_source(Waveform::Triangle);
    assert_eq!(st.get_source(), Waveform::Triangle);
    st.set_adsr(Adsr::new(1, 2, 3, 4));
    assert_eq!(st.get_adsr(), Adsr::new(1, 2, 3, 4));
    assert!(st.take_changes().is_empty());
}
