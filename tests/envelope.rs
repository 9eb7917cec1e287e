use tjam::envelope::{stage_len_samples, Adsr, Amplitude, Envelope, Stage, AMP_ONE, MAX_STAGE_MS};

fn run(e: &mut Envelope, gate: bool, n: usize) -> Vec<Option<Amplitude>> {
    (0..n).map(|_| e.next_amplitude(gate)).collect()
}

/// Whether `a` is the fraction `n / d` of full scale.
fn is(a: Option<Amplitude>, n: u128, d: u128) -> bool {
    let a = a.unwrap();
    a.num * d == n * a.den
}

/// `a` is strictly below `b`.
fn below(a: Amplitude, b: Amplitude) -> bool {
    a.num * b.den < b.num * a.den
}

#[test]
fn stage_lengths_round_and_clamp() {
    assert_eq!(stage_len_samples(100, 48_000), 4_800);
    assert_eq!(stage_len_samples(10, 44_100), 441);
    assert_eq!(stage_len_samples(1, 1_500), 2);
    assert_eq!(stage_len_samples(1, 1_499), 1);
    assert_eq!(stage_len_samples(250, 0), 0);
    assert_eq!(stage_len_samples(20_000, 1_000), 10_000);
}

#[test]
fn adsr_new_clamps_each_value() {
    let a = Adsr::new(-5, 20_000, 2_000_000, 300);
    assert_eq!(a.attack_ms, 0);
    assert_eq!(a.decay_ms, MAX_STAGE_MS);
    assert_eq!(a.sustain, AMP_ONE);
    assert_eq!(a.release_ms, 300);
    assert_eq!(Adsr::new(1, 2, -1, 4).sustain, 0);
}

#[test]
fn attack_decay_sustain_from_rest() {
    let adsr = Adsr::new(100, 100, 500_000, 250);
    let mut e = Envelope::new(adsr, 1_000);
    assert_eq!(e.stage(), Stage::Attack);
    assert_eq!(e.amplitude().num, 0);
    let attack = run(&mut e, true, 100);
    assert!(is(attack[0], 1, 100));
    assert!(is(attack[49], 1, 2));
    assert!(is(attack[99], 1, 1));
    assert_eq!(e.stage(), Stage::Decay);
    let decay = run(&mut e, true, 100);
    assert!(is(decay[0], 995, 1000));
    assert!(is(decay[99], 1, 2));
    assert_eq!(e.stage(), Stage::Sustain);
    let held = run(&mut e, true, 5_000);
    assert!(held.iter().all(|a| is(*a, 1, 2)));
    assert_eq!(e.stage(), Stage::Sustain);
}

#[test]
fn attack_ramps_monotonically() {
    let mut e = Envelope::new(Adsr::new(7, 3, 300_000, 5), 1_000);
    let attack = run(&mut e, true, 7);
    for w in attack.windows(2) {
        assert!(below(w[0].unwrap(), w[1].unwrap()));
    }
    assert!(is(attack[6], 1, 1));
}

#[test]
fn gate_closed_mid_attack_releases_from_current_amplitude() {
    let mut e = Envelope::new(Adsr::new(100, 100, 500_000, 250), 1_000);
    let attack = run(&mut e, true, 50);
    assert!(is(attack[49], 1, 2));
    let release = run(&mut e, false, 250);
    assert_eq!(e.stage(), Stage::Done);
    assert!(is(release[0], 249, 500));
    assert!(is(release[124], 1, 4));
    assert!(is(release[249], 0, 1));
    for w in release.windows(2) {
        assert!(below(w[1].unwrap(), w[0].unwrap()));
    }
    assert_eq!(e.next_amplitude(false), None);
    assert_eq!(e.next_amplitude(true), None);
    assert!(e.is_done());
}

#[test]
fn long_release_decreases_strictly() {
    let mut e = Envelope::new(Adsr::new(10, 10, 500_000, 10_000), 96_000);
    run(&mut e, true, 960 + 960 + 5);
    assert!(is(Some(e.amplitude()), 1, 2));
    let mut prev = e.amplitude();
    let mut n = 0usize;
    while let Some(a) = e.next_amplitude(false) {
        assert!(below(a, prev));
        prev = a;
        n += 1;
    }
    assert_eq!(n, 960_000);
    assert_eq!(prev.num, 0);
}

#[test]
fn empty_release_ends_at_once() {
    let mut e = Envelope::new(Adsr::new(10, 10, 800_000, 0), 1_000);
    run(&mut e, true, 5);
    assert_eq!(e.next_amplitude(false), None);
    assert_eq!(e.stage(), Stage::Done);
}

#[test]
fn empty_attack_goes_straight_to_sustain() {
    let mut e = Envelope::new(Adsr::new(0, 100, 700_000, 10), 1_000);
    assert!(is(e.next_amplitude(true), 7, 10));
    assert_eq!(e.stage(), Stage::Sustain);
}

#[test]
fn zero_sample_rate_skips_every_stage() {
    let mut e = Envelope::new(Adsr::new(100, 100, 600_000, 100), 0);
    assert!(is(e.next_amplitude(true), 6, 10));
    assert_eq!(e.next_amplitude(false), None);
    assert!(e.is_done());
}

#[test]
fn empty_decay_is_skipped() {
    let mut e = Envelope::new(Adsr::new(2, 0, 400_000, 10), 1_000);
    let out = run(&mut e, true, 3);
    assert!(is(out[0], 1, 2));
    assert!(is(out[1], 1, 1));
    assert!(is(out[2], 4, 10));
    assert_eq!(e.stage(), Stage::Sustain);
}
