use tjam::envelope::AMP_ONE;
use tjam::settings::Waveform;
use tjam::source::{phase_step, shape, Oscillator, WaveSample, PHASE_HALF, PHASE_ONE};

const ONE: i32 = AMP_ONE as i32;

#[test]
fn phase_step_is_a_fraction_of_a_cycle() {
    assert_eq!(phase_step(12_000_000_000, 48_000), (PHASE_ONE / 4) as u32);
    assert_eq!(phase_step(440_000_000, 0), 0);
    assert_eq!(phase_step(96_000_000_000, 48_000), 0);
    assert_eq!(phase_step(440_000_000, 44_000), (PHASE_ONE / 100) as u32);
}

#[test]
fn shapes_at_key_phases() {
    let q = (PHASE_ONE / 4) as u32;
    let h = PHASE_HALF as u32;
    assert_eq!(shape(Waveform::Saw, 0), WaveSample::Level(-ONE));
    assert_eq!(shape(Waveform::Saw, h), WaveSample::Level(0));
    assert_eq!(shape(Waveform::Square, q), WaveSample::Level(ONE));
    assert_eq!(shape(Waveform::Square, h), WaveSample::Level(0));
    assert_eq!(shape(Waveform::Square, h + q), WaveSample::Level(-ONE));
    assert_eq!(shape(Waveform::Triangle, 0), WaveSample::Level(-ONE));
    assert_eq!(shape(Waveform::Triangle, q), WaveSample::Level(0));
    assert_eq!(shape(Waveform::Triangle, h), WaveSample::Level(ONE));
    assert_eq!(shape(Waveform::Sine, q), WaveSample::Sine(q));
    assert_eq!(shape(Waveform::Noise, q), WaveSample::Noise);
}

#[test]
fn oscillator_advances_and_wraps() {
    let mut o = Oscillator::create_source(Waveform::Square, 12_000_000_000, 48_000);
    assert_eq!(o.next_sample(), WaveSample::Level(ONE));
    assert_eq!(o.next_sample(), WaveSample::Level(0));
    assert_eq!(o.next_sample(), WaveSample::Level(-ONE));
    assert_eq!(o.next_sample(), WaveSample::Level(ONE));
    assert_eq!(o.phase, 0);
}
