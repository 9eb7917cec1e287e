use tjam::envelope::{Adsr, AMP_ONE, MAX_STAGE_MS};
use tjam::settings::Waveform;
use tjam::ui::{tweak_adsr, ui_selected_small_step, AdsrParam, FocusPane, FpsCounter, UiAction, UiKey, UiState};

#[test]
fn focus_cycles() {
    assert_eq!(FocusPane::Waveforms.next(), FocusPane::Adsr);
    assert_eq!(FocusPane::Adsr.next(), FocusPane::Bottom);
    assert_eq!(FocusPane::Bottom.next(), FocusPane::Waveforms);
}

#[test]
fn adsr_params_in_order_with_names() {
    let all = AdsrParam::all();
    assert_eq!(all, [AdsrParam::Attack, AdsrParam::Decay, AdsrParam::Sustain, AdsrParam::Release]);
    assert_eq!(AdsrParam::Attack.name(), "Attack (s)");
    assert_eq!(AdsrParam::Sustain.name(), "Sustain (0..1)");
    assert_eq!(AdsrParam::Release.name(), "Release (s)");
}

#[test]
fn tweak_clamps_each_parameter() {
    let mut a = Adsr::new(5, 9_995, 995_000, 0);
    tweak_adsr(&mut a, AdsrParam::Attack, -1);
    assert_eq!(a.attack_ms, 0);
    tweak_adsr(&mut a, AdsrParam::Decay, 1);
    assert_eq!(a.decay_ms, MAX_STAGE_MS);
    tweak_adsr(&mut a, AdsrParam::Sustain, 1);
    assert_eq!(a.sustain, AMP_ONE);
    tweak_adsr(&mut a, AdsrParam::Release, 1);
    assert_eq!(a.release_ms, 10);
    assert_eq!(a.attack_ms, 0);
    assert_eq!(ui_selected_small_step(AdsrParam::Sustain), 10_000);
    assert_eq!(ui_selected_small_step(AdsrParam::Decay), 10);
}

#[test]
fn waveform_pane_selects_waveforms() {
    let mut ui = UiState::new(Adsr::new(10, 100, 700_000, 250));
    assert_eq!(ui.handle_key(UiKey::Up), UiAction::Nothing);
    assert_eq!(ui.handle_key(UiKey::Down), UiAction::SetWaveform(Waveform::Saw));
    assert_eq!(ui.handle_key(UiKey::Down), UiAction::SetWaveform(Waveform::Square));
    ui.handle_key(UiKey::Down);
    assert_eq!(ui.handle_key(UiKey::Down), UiAction::SetWaveform(Waveform::Noise));
    assert_eq!(ui.handle_key(UiKey::Down), UiAction::Nothing);
    assert_eq!(ui.selected_waveform(), Waveform::Noise);
}

#[test]
fn adsr_pane_edits_selected_parameter() {
    let mut ui = UiState::new(Adsr::new(10, 100, 700_000, 250));
    assert_eq!(ui.handle_key(UiKey::Tab), UiAction::Nothing);
    assert_eq!(ui.focus, FocusPane::Adsr);
    ui.handle_key(UiKey::Down);
    ui.handle_key(UiKey::Down);
    assert_eq!(ui.selected_adsr_param(), AdsrParam::Sustain);
    assert_eq!(ui.handle_key(UiKey::Left), UiAction::SetAdsr(Adsr::new(10, 100, 690_000, 250)));
    ui.handle_key(UiKey::Up);
    assert_eq!(ui.handle_key(UiKey::Right), UiAction::SetAdsr(Adsr::new(10, 110, 690_000, 250)));
    ui.handle_key(UiKey::Tab);
    assert_eq!(ui.handle_key(UiKey::Right), UiAction::Nothing);
}

#[test]
fn fps_counter_counts_per_second() {
    let mut fps = FpsCounter::new(1_000);
    for t in 0..30 {
        fps.tick(1_000 + t * 10);
    }
    assert_eq!(fps.get(), 0);
    fps.tick(2_000);
    assert_eq!(fps.get(), 31);
    fps.tick(2_500);
    assert_eq!(fps.get(), 31);
}
