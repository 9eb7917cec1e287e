use vstd::prelude::*;

verus! {

/// Full scale in millionths: the unit of sustain levels, volumes and waveform levels.
pub const AMP_ONE: u32 = 1_000_000;

/// Longest duration of an envelope stage, in milliseconds.
pub const MAX_STAGE_MS: u32 = 10_000;

/// Attack, decay and release durations in milliseconds, and the sustain level
/// as a fraction of `AMP_ONE`.
#[derive(Debug, Clone, Copy, PartialEq, Eq, Structural)]
pub struct Adsr {
    pub attack_ms: u32,
    pub decay_ms: u32,
    pub sustain: u32,
    pub release_ms: u32,
}

/// `x` limited to `[lo, hi]`.
pub open spec fn clamp(x: int, lo: int, hi: int) -> int {
    if x < lo {
        lo
    } else if x > hi {
        hi
    } else {
        x
    }
}

/// Durations within the longest stage and a sustain level within full scale.
pub open spec fn adsr_in_range(a: Adsr) -> bool {
    a.attack_ms <= MAX_STAGE_MS && a.decay_ms <= MAX_STAGE_MS && a.release_ms <= MAX_STAGE_MS
        && a.sustain <= AMP_ONE
}

fn clamp_i64(x: i64, lo: i64, hi: i64) -> (r: i64)
    requires
        lo <= hi,
    ensures
        r == clamp(x as int, lo as int, hi as int),
{
    if x < lo {
        lo
    } else if x > hi {
        hi
    } else {
        x
    }
}

impl Adsr {
    /// Envelope parameters, each clamped into its range: durations into
    /// `[0, MAX_STAGE_MS]`, the sustain level into `[0, AMP_ONE]`.
    pub fn new(attack_ms: i64, decay_ms: i64, sustain: i64, release_ms: i64) -> (r: Adsr)
        ensures
            r.attack_ms == clamp(attack_ms as int, 0, MAX_STAGE_MS as int),
            r.decay_ms == clamp(decay_ms as int, 0, MAX_STAGE_MS as int),
            r.sustain == clamp(sustain as int, 0, AMP_ONE as int),
            r.release_ms == clamp(release_ms as int, 0, MAX_STAGE_MS as int),
            adsr_in_range(r),
    {
        Adsr {
            attack_ms: clamp_i64(attack_ms, 0, MAX_STAGE_MS as i64) as u32,
            decay_ms: clamp_i64(decay_ms, 0, MAX_STAGE_MS as i64) as u32,
            sustain: clamp_i64(sustain, 0, AMP_ONE as i64) as u32,
            release_ms: clamp_i64(release_ms, 0, MAX_STAGE_MS as i64) as u32,
        }
    }
}

/// Stage of an envelope; `Done` is absorbing.
#[derive(Debug, Clone, Copy, PartialEq, Eq, Structural)]
pub enum Stage {
    Attack,
    Decay,
    Sustain,
    Release,
    Done,
}

/// Samples in a stage of `ms` milliseconds at `rate` samples per second,
/// rounded to the nearest sample; durations past the longest stage count as
/// the longest stage.
pub open spec fn stage_len(ms: u32, rate: u32) -> int {
    (clamp(ms as int, 0, MAX_STAGE_MS as int) * rate + 500) / 1000
}

/// Largest denominator of an amplitude outside the release.
pub const HELD_DEN_MAX: u128 = 72_057_594_037_927_936;

/// Largest denominator of any amplitude.
pub const AMP_DEN_MAX: u128 = 4_951_760_157_141_521_099_596_496_896;

/// An amplitude given exactly, as the fraction `num / den` of full scale.
#[derive(Debug, Clone, Copy, PartialEq, Eq, Structural)]
pub struct Amplitude {
    pub num: u128,
    pub den: u128,
}

/// `a` stands for the fraction `n / d` of full scale.
pub open spec fn amp_eq(a: Amplitude, n: int, d: int) -> bool {
    a.num * d == n * a.den
}

/// `a` is a smaller amplitude than `b`.
pub open spec fn amp_lt(a: Amplitude, b: Amplitude) -> bool {
    a.num * b.den < b.num * a.den
}

/// A fraction between 0 and full scale with a positive denominator up to `max`.
pub open spec fn amp_ok(a: Amplitude, max: int) -> bool {
    0 < a.den <= max && a.num <= a.den
}

/// Per-voice envelope: the parameters copied at note-on, the stage, the
/// samples elapsed in it, the last amplitude and the amplitude at which the
/// release began.
#[derive(Debug, Clone, Copy, PartialEq, Eq, Structural)]
pub struct Envelope {
    pub adsr: Adsr,
    pub sample_rate: u32,
    pub stage: Stage,
    pub stage_pos: u64,
    pub current_amp: Amplitude,
    pub release_start_amp: Amplitude,
}

impl Envelope {
    pub open spec fn attack_len(self) -> int {
        stage_len(self.adsr.attack_ms, self.sample_rate)
    }

    pub open spec fn decay_len(self) -> int {
        stage_len(self.adsr.decay_ms, self.sample_rate)
    }

    pub open spec fn release_len(self) -> int {
        stage_len(self.adsr.release_ms, self.sample_rate)
    }

    /// The sustain level in millionths of full scale, limited to full scale.
    pub open spec fn sustain_level(self) -> int {
        clamp(self.adsr.sustain as int, 0, AMP_ONE as int)
    }

    /// Length of the stage the envelope is in; held stages have none.
    pub open spec fn len_of_stage(self) -> int {
        match self.stage {
            Stage::Attack => self.attack_len(),
            Stage::Decay => self.decay_len(),
            Stage::Release => self.release_len(),
            _ => 0,
        }
    }

    /// Whether the envelope is still before its release.
    pub open spec fn held(self) -> bool {
        self.stage == Stage::Attack || self.stage == Stage::Decay || self.stage == Stage::Sustain
    }

    /// Amplitudes within full scale with bounded denominators, and a position
    /// inside the stage (a position of zero also stands for a stage not yet
    /// entered).
    pub open spec fn wf(self) -> bool {
        &&& amp_ok(self.current_amp, AMP_DEN_MAX as int)
        &&& amp_ok(self.release_start_amp, HELD_DEN_MAX as int)
        &&& (self.held() ==> self.current_amp.den <= HELD_DEN_MAX)
        &&& (self.stage_pos == 0 || self.stage_pos < self.len_of_stage())
    }

    /// The envelope after its gate is observed: a closed gate moves any stage
    /// before the release into the release, from the current amplitude.
    pub open spec fn gated(self, gate_open: bool) -> Envelope {
        if !gate_open && self.held() {
            Envelope {
                stage: Stage::Release,
                stage_pos: 0,
                release_start_amp: self.current_amp,
                ..self
            }
        } else {
            self
        }
    }

    /// The envelope after stages of no length are passed over: an empty
    /// attack or decay leads to the sustain, an empty release ends it.
    pub open spec fn skipped(self) -> Envelope {
        if self.stage == Stage::Attack && self.attack_len() == 0 {
            Envelope { stage: Stage::Sustain, stage_pos: 0, ..self }
        } else if self.stage == Stage::Decay && self.decay_len() == 0 {
            Envelope { stage: Stage::Sustain, stage_pos: 0, ..self }
        } else if self.stage == Stage::Release && self.release_len() == 0 {
            Envelope {
                stage: Stage::Done,
                stage_pos: 0,
                current_amp: Amplitude { num: 0, den: 1 },
                ..self
            }
        } else {
            self
        }
    }

    /// One sample further inside the current stage: after `p` samples the
    /// attack stands at `p / La`, the decay at `1 - (1 - s) p / Ld`, the
    /// sustain at `s`, the release at `r0 (Lr - p) / Lr`; a finished stage
    /// leads to the next one.
    pub open spec fn advanced(self) -> Envelope {
        let p = self.stage_pos + 1;
        match self.stage {
            Stage::Attack => {
                let la = self.attack_len();
                let amp = Amplitude { num: p as u128, den: la as u128 };
                if p == la {
                    Envelope { stage: Stage::Decay, stage_pos: 0, current_amp: amp, ..self }
                } else {
                    Envelope { stage_pos: p as u64, current_amp: amp, ..self }
                }
            },
            Stage::Decay => {
                let ld = self.decay_len();
                let amp = Amplitude {
                    num: (AMP_ONE * ld - (AMP_ONE - self.sustain_level()) * p) as u128,
                    den: (AMP_ONE * ld) as u128,
                };
                if p == ld {
                    Envelope { stage: Stage::Sustain, stage_pos: 0, current_amp: amp, ..self }
                } else {
                    Envelope { stage_pos: p as u64, current_amp: amp, ..self }
                }
            },
            Stage::Sustain => Envelope {
                current_amp: Amplitude { num: self.sustain_level() as u128, den: AMP_ONE as u128 },
                ..self
            },
            Stage::Release => {
                let lr = self.release_len();
                let r0 = self.release_start_amp;
                let amp = Amplitude { num: (r0.num * (lr - p)) as u128, den: (r0.den * lr) as u128 };
                if p == lr {
                    Envelope { stage: Stage::Done, stage_pos: 0, current_amp: amp, ..self }
                } else {
                    Envelope { stage_pos: p as u64, current_amp: amp, ..self }
                }
            },
            Stage::Done => self,
        }
    }

    /// The envelope after one sample with its gate as given.
    pub open spec fn stepped(self, gate_open: bool) -> Envelope {
        self.gated(gate_open).skipped().advanced()
    }

    /// What one sample yields: nothing once the envelope is done, else the
    /// amplitude it reached.
    pub open spec fn step_output(self, gate_open: bool) -> Option<Amplitude> {
        if self.gated(gate_open).skipped().stage == Stage::Done {
            None
        } else {
            Some(self.stepped(gate_open).current_amp)
        }
    }

    /// The envelope after `n` samples with its gate held as given.
    pub open spec fn run(self, gate_open: bool, n: nat) -> Envelope
        decreases n,
    {
        if n == 0 {
            self
        } else {
            self.run(gate_open, (n - 1) as nat).stepped(gate_open)
        }
    }
}

/// A silent envelope about to begin its attack.
pub open spec fn rest_envelope(adsr: Adsr, sample_rate: u32) -> Envelope {
    Envelope {
        adsr,
        sample_rate,
        stage: Stage::Attack,
        stage_pos: 0,
        current_amp: Amplitude { num: 0, den: 1 },
        release_start_amp: Amplitude { num: 0, den: 1 },
    }
}

/// Samples in a stage of `ms` milliseconds at `rate` samples per second.
pub fn stage_len_samples(ms: u32, rate: u32) -> (r: u64)
    ensures
        r == stage_len(ms, rate),
        r <= 42_949_673_000,
{
    let m: u64 = if ms > MAX_STAGE_MS { MAX_STAGE_MS as u64 } else { ms as u64 };
    assert(m * rate <= 10_000 * 4_294_967_295u64) by (nonlinear_arith)
        requires m <= 10_000, rate <= 4_294_967_295u64;
    (m * rate as u64 + 500) / 1000
}

impl Envelope {
    /// An envelope at rest, about to begin its attack.
    pub fn new(adsr: Adsr, sample_rate: u32) -> (r: Envelope)
        ensures
            r == rest_envelope(adsr, sample_rate),
            r.wf(),
    {
        Envelope {
            adsr,
            sample_rate,
            stage: Stage::Attack,
            stage_pos: 0,
            current_amp: Amplitude { num: 0, den: 1 },
            release_start_amp: Amplitude { num: 0, den: 1 },
        }
    }

    pub fn stage(&self) -> (r: Stage)
        ensures
            r == self.stage,
    {
        self.stage
    }

    pub fn amplitude(&self) -> (r: Amplitude)
        ensures
            r == self.current_amp,
    {
        self.current_amp
    }

    pub fn is_done(&self) -> (r: bool)
        ensures
            r == (self.stage == Stage::Done),
    {
        match self.stage {
            Stage::Done => true,
            _ => false,
        }
    }

    /// Advances by one sample with its gate as observed now, and yields the
    /// amplitude that multiplies that sample, or `None` once the envelope is
    /// done.
    pub fn next_amplitude(&mut self, gate_open: bool) -> (r: Option<Amplitude>)
        requires
            old(self).wf(),
        ensures
            *final(self) == old(self).stepped(gate_open),
            r == old(self).step_output(gate_open),
            final(self).wf(),
    {
        let ghost e0 = *self;
        // a closed gate starts the release from wherever the envelope stands
        if !gate_open {
            match self.stage {
                Stage::Attack | Stage::Decay | Stage::Sustain => {
                    self.release_start_amp = self.current_amp;
                    self.stage = Stage::Release;
                    self.stage_pos = 0;
                },
                _ => {},
            }
        }
        assert(*self == e0.gated(gate_open));
        let la = stage_len_samples(self.adsr.attack_ms, self.sample_rate);
        let ld = stage_len_samples(self.adsr.decay_ms, self.sample_rate);
        let lr = stage_len_samples(self.adsr.release_ms, self.sample_rate);
        let sus: u128 = if self.adsr.sustain > AMP_ONE { AMP_ONE as u128 } else { self.adsr.sustain as u128 };
        match self.stage {
            Stage::Attack => {
                if la == 0 {
                    self.stage = Stage::Sustain;
                    self.stage_pos = 0;
                }
            },
            Stage::Decay => {
                if ld == 0 {
                    self.stage = Stage::Sustain;
                    self.stage_pos = 0;
                }
            },
            Stage::Release => {
                if lr == 0 {
                    self.stage = Stage::Done;
                    self.stage_pos = 0;
                    self.current_amp = Amplitude { num: 0, den: 1 };
                }
            },
            _ => {},
        }
        assert(*self == e0.gated(gate_open).skipped());
        match self.stage {
            Stage::Done => {
                return None;
            },
            Stage::Attack => {
                let p: u64 = self.stage_pos + 1;
                self.current_amp = Amplitude { num: p as u128, den: la as u128 };
                if p == la {
                    self.stage = Stage::Decay;
                    self.stage_pos = 0;
                } else {
                    self.stage_pos = p;
                }
            },
            Stage::Decay => {
                let p: u64 = self.stage_pos + 1;
                let drop: u128 = AMP_ONE as u128 - sus;
                let den: u128 = AMP_ONE as u128 * ld as u128;
                assert(drop * p <= AMP_ONE * ld) by (nonlinear_arith)
                    requires p <= ld, drop <= AMP_ONE;
                self.current_amp = Amplitude { num: den - drop * p as u128, den };
                if p == ld {
                    self.stage = Stage::Sustain;
                    self.stage_pos = 0;
                } else {
                    self.stage_pos = p;
                }
            },
            Stage::Sustain => {
                self.current_amp = Amplitude { num: sus, den: AMP_ONE as u128 };
            },
            Stage::Release => {
                let p: u64 = self.stage_pos + 1;
                let r0 = self.release_start_amp;
                assert(r0.num * (lr - p) <= r0.den * lr && r0.den * lr <= AMP_DEN_MAX) by (nonlinear_arith)
                    requires
                        p <= lr,
                        lr <= 42_949_673_000,
                        r0.num <= r0.den,
                        r0.den <= HELD_DEN_MAX;
                self.current_amp = Amplitude { num: r0.num * (lr - p) as u128, den: r0.den * lr as u128 };
                assert(self.current_amp.den > 0) by (nonlinear_arith)
                    requires self.current_amp.den == r0.den * lr, r0.den > 0, lr > 0;
                if p == lr {
                    self.stage = Stage::Done;
                    self.stage_pos = 0;
                } else {
                    self.stage_pos = p;
                }
            },
        }
        assert(*self == e0.stepped(gate_open));
        Some(self.current_amp)
    }
}

impl Envelope {
    /// An envelope at rest: about to begin its attack, silent.
    pub open spec fn at_rest(self) -> bool {
        self.stage == Stage::Attack && self.stage_pos == 0 && self.current_amp.num == 0
    }

    /// Where an envelope at rest stands after `k` samples with its gate open,
    /// when neither the attack nor the decay is empty.
    pub open spec fn held_shape(self, k: nat) -> Envelope {
        let la = self.attack_len();
        let ld = self.decay_len();
        let s = self.sustain_level();
        if k == 0 {
            self
        } else if k < la {
            Envelope {
                stage: Stage::Attack,
                stage_pos: k as u64,
                current_amp: Amplitude { num: k as u128, den: la as u128 },
                ..self
            }
        } else if k == la {
            Envelope {
                stage: Stage::Decay,
                stage_pos: 0,
                current_amp: Amplitude { num: la as u128, den: la as u128 },
                ..self
            }
        } else if k <= la + ld {
            let j = k - la;
            let amp = Amplitude {
                num: (AMP_ONE * ld - (AMP_ONE - s) * j) as u128,
                den: (AMP_ONE * ld) as u128,
            };
            if k < la + ld {
                Envelope { stage: Stage::Decay, stage_pos: j as u64, current_amp: amp, ..self }
            } else {
                Envelope { stage: Stage::Sustain, stage_pos: 0, current_amp: amp, ..self }
            }
        } else {
            Envelope {
                stage: Stage::Sustain,
                stage_pos: 0,
                current_amp: Amplitude { num: s as u128, den: AMP_ONE as u128 },
                ..self
            }
        }
    }

    /// Where an envelope before its release stands `k` samples after its
    /// gate closed, when the release is not empty: `r0 (Lr - k) / Lr` from
    /// the amplitude `r0` it had, then done at 0.
    pub open spec fn release_shape(self, k: nat) -> Envelope {
        let lr = self.release_len();
        let r0 = self.current_amp;
        let amp = Amplitude {
            num: (r0.num * (lr - k)) as u128,
            den: (r0.den * lr) as u128,
        };
        if k == 0 {
            self
        } else if k < lr {
            Envelope {
                stage: Stage::Release,
                stage_pos: k as u64,
                current_amp: amp,
                release_start_amp: r0,
                ..self
            }
        } else {
            Envelope {
                stage: Stage::Done,
                stage_pos: 0,
                current_amp: Amplitude { num: 0, den: (r0.den * lr) as u128 },
                release_start_amp: r0,
                ..self
            }
        }
    }
}

proof fn lemma_stage_len_bound(ms: u32, rate: u32)
    ensures
        0 <= stage_len(ms, rate) <= 42_949_673_000,
{
    let m = clamp(ms as int, 0, MAX_STAGE_MS as int);
    assert(0 <= m * rate <= 10_000 * 4_294_967_295) by (nonlinear_arith)
        requires 0 <= m <= 10_000, 0 <= rate <= 4_294_967_295;
}

proof fn lemma_held_step(e: Envelope, k: nat)
    requires
        e.at_rest(),
        e.attack_len() > 0,
        e.decay_len() > 0,
    ensures
        e.held_shape(k).stepped(true) == e.held_shape(k + 1),
{
    lemma_stage_len_bound(e.adsr.attack_ms, e.sample_rate);
    lemma_stage_len_bound(e.adsr.decay_ms, e.sample_rate);
    let la = e.attack_len();
    let ld = e.decay_len();
    let s = e.sustain_level();
    let h = e.held_shape(k);
    assert(h.gated(true).skipped() == h);
    if la < k + 1 && k + 1 <= la + ld {
        let j = k + 1 - la;
        assert(0 <= (AMP_ONE - s) * j <= AMP_ONE * ld) by (nonlinear_arith)
            requires 1 <= j <= ld, 0 <= s <= AMP_ONE;
        assert(h.advanced() == e.held_shape(k + 1));
    } else if k + 1 > la + ld {
        assert(h.advanced() == e.held_shape(k + 1));
    } else {
        assert(h.advanced() == e.held_shape(k + 1));
    }
}

proof fn lemma_held_run(e: Envelope, k: nat)
    requires
        e.at_rest(),
        e.attack_len() > 0,
        e.decay_len() > 0,
    ensures
        e.run(true, k) == e.held_shape(k),
    decreases k,
{
    if k > 0 {
        lemma_held_run(e, (k - 1) as nat);
        lemma_held_step(e, (k - 1) as nat);
    }
}

/// From rest with its gate held open, the amplitude climbs to full scale by
/// the end of the attack, falls to the sustain level by the end of the decay,
/// and then holds the sustain level for as long as its gate stays open.
pub proof fn lemma_envelope_from_rest(e: Envelope)
    requires
        e.at_rest(),
        e.attack_len() > 0,
        e.decay_len() > 0,
    ensures
        amp_eq(e.run(true, e.attack_len() as nat).current_amp, 1, 1),
        e.run(true, e.attack_len() as nat).stage == Stage::Decay,
        forall|k: nat|
            k >= e.attack_len() + e.decay_len() ==> amp_eq(
                (#[trigger] e.run(true, k)).current_amp,
                e.sustain_level(),
                AMP_ONE as int,
            ) && e.run(true, k).stage == Stage::Sustain,
{
    lemma_held_run(e, e.attack_len() as nat);
    assert forall|k: nat| k >= e.attack_len() + e.decay_len() implies amp_eq(
        (#[trigger] e.run(true, k)).current_amp,
        e.sustain_level(),
        AMP_ONE as int,
    ) && e.run(true, k).stage == Stage::Sustain by {
        lemma_held_run(e, k);
        lemma_stage_len_bound(e.adsr.decay_ms, e.sample_rate);
        let ld = e.decay_len();
        let s = e.sustain_level();
        assert((AMP_ONE * ld - (AMP_ONE - s) * ld) * AMP_ONE == s * (AMP_ONE * ld)) by (nonlinear_arith);
        assert(0 <= (AMP_ONE - s) * ld <= AMP_ONE * ld) by (nonlinear_arith)
            requires 1 <= ld, 0 <= s <= AMP_ONE;
    }
}

proof fn lemma_release_step(e: Envelope, k: nat)
    requires
        e.wf(),
        e.held(),
        e.release_len() > 0,
    ensures
        e.release_shape(k).stepped(false) == e.release_shape(k + 1),
{
    lemma_stage_len_bound(e.adsr.release_ms, e.sample_rate);
    let lr = e.release_len();
    let r0 = e.current_amp;
    assert(0 < r0.den * lr <= AMP_DEN_MAX) by (nonlinear_arith)
        requires 1 <= lr, 0 < r0.den <= HELD_DEN_MAX, lr <= 42_949_673_000;
    if k + 1 <= lr {
        assert(0 <= r0.num * (lr - (k + 1)) <= r0.den * lr) by (nonlinear_arith)
            requires k + 1 <= lr, 0 <= r0.num <= r0.den;
    }
    if k + 1 == lr {
        assert(r0.num * (lr - (k + 1)) == 0) by (nonlinear_arith)
            requires k + 1 == lr;
    }
    if k == 0 {
        let g = e.gated(false);
        assert(g.stage == Stage::Release && g.stage_pos == 0 && g.release_start_amp == r0);
        assert(g.release_len() == lr);
        assert(g.skipped() == g);
        assert(g.advanced() == e.release_shape(1));
    } else if k < lr {
        assert(e.release_shape(k).gated(false).skipped() == e.release_shape(k));
    }
}

proof fn lemma_release_run(e: Envelope, k: nat)
    requires
        e.wf(),
        e.held(),
        e.release_len() > 0,
    ensures
        e.run(false, k) == e.release_shape(k),
    decreases k,
{
    if k > 0 {
        lemma_release_run(e, (k - 1) as nat);
        lemma_release_step(e, (k - 1) as nat);
    }
}

/// Closing its gate at any point before the release (mid-attack included)
/// ramps the amplitude linearly from where it stood, `r0`, to 0: `k` samples
/// later it is exactly `r0 (Lr - k) / Lr`; after exactly `Lr` samples the
/// envelope is done and yields nothing. With an empty release it is done at
/// once.
pub proof fn lemma_release_from_anywhere(e: Envelope)
    requires
        e.wf(),
        e.held(),
    ensures
        e.release_len() == 0 ==> e.step_output(false) == None::<Amplitude>,
        e.release_len() > 0 ==> forall|k: nat|
            1 <= k < e.release_len() ==> (#[trigger] e.run(false, k)).stage == Stage::Release
                && amp_eq(
                e.run(false, k).current_amp,
                e.current_amp.num * (e.release_len() - k),
                e.current_amp.den * e.release_len(),
            ),
        e.release_len() > 0 ==> e.run(false, e.release_len() as nat).current_amp.num == 0,
        e.release_len() > 0 ==> e.run(false, e.release_len() as nat).stage == Stage::Done,
        e.release_len() > 0 ==> e.run(false, e.release_len() as nat).step_output(false)
            == None::<Amplitude>,
{
    if e.release_len() > 0 {
        lemma_stage_len_bound(e.adsr.release_ms, e.sample_rate);
        lemma_release_run(e, e.release_len() as nat);
        assert forall|k: nat| 1 <= k < e.release_len() implies (#[trigger] e.run(
            false,
            k,
        )).stage == Stage::Release && amp_eq(
            e.run(false, k).current_amp,
            e.current_amp.num * (e.release_len() - k),
            e.current_amp.den * e.release_len(),
        ) by {
            lemma_release_run(e, k);
            let lr = e.release_len();
            let r0 = e.current_amp;
            assert(0 <= r0.num * (lr - k) <= r0.den * lr <= AMP_DEN_MAX) by (nonlinear_arith)
                requires k < lr, 0 <= r0.num <= r0.den, r0.den <= HELD_DEN_MAX, lr <= 42_949_673_000;
        }
    }
}

/// A note held from rest through its whole attack and decay and then let go
/// fades strictly, sample by sample, from the sustain level to 0 within the
/// release length, and then ends; this needs a sustain level above 0.
pub proof fn lemma_note_tail(e: Envelope, held: nat)
    requires
        e.wf(),
        e.at_rest(),
        e.attack_len() > 0,
        e.decay_len() > 0,
        held >= e.attack_len() + e.decay_len(),
        e.release_len() > 0,
        e.sustain_level() > 0,
    ensures
        forall|k: nat|
            1 <= k <= e.release_len() ==> amp_lt(
                (#[trigger] e.run(true, held).run(false, k)).current_amp,
                e.run(true, held).run(false, (k - 1) as nat).current_amp,
            ),
        e.run(true, held).run(false, e.release_len() as nat).current_amp.num == 0,
        e.run(true, held).run(false, e.release_len() as nat).step_output(false) == None::<
            Amplitude,
        >,
{
    lemma_stage_len_bound(e.adsr.attack_ms, e.sample_rate);
    lemma_stage_len_bound(e.adsr.decay_ms, e.sample_rate);
    lemma_stage_len_bound(e.adsr.release_ms, e.sample_rate);
    lemma_held_run(e, held);
    let h = e.run(true, held);
    let lr = e.release_len();
    let s = e.sustain_level();
    let ld = e.decay_len();
    assert(h.release_len() == lr);
    assert(h.held());
    assert(h.current_amp.num > 0 && h.wf()) by {
        assert(0 <= (AMP_ONE - s) * ld < AMP_ONE * ld) by (nonlinear_arith)
            requires 1 <= ld, 0 < s <= AMP_ONE;
        assert(AMP_ONE * ld <= HELD_DEN_MAX) by (nonlinear_arith)
            requires ld <= 42_949_673_000;
    }
    lemma_release_from_anywhere(h);
    let n = h.current_amp.num as int;
    let d = h.current_amp.den as int;
    assert forall|k: nat| 1 <= k <= lr implies amp_lt(
        (#[trigger] h.run(false, k)).current_amp,
        h.run(false, (k - 1) as nat).current_amp,
    ) by {
        lemma_release_run(h, k);
        lemma_release_run(h, (k - 1) as nat);
        assert(0 <= n * (lr - k) <= d * lr <= AMP_DEN_MAX) by (nonlinear_arith)
            requires 1 <= k <= lr, 0 < n <= d, d <= HELD_DEN_MAX, lr <= 42_949_673_000;
        if k == 1 {
            assert(n * (lr - 1) * d < n * (d * lr)) by (nonlinear_arith)
                requires n > 0, d > 0, lr >= 1;
        } else {
            assert(0 <= n * (lr - (k - 1)) <= d * lr) by (nonlinear_arith)
                requires 2 <= k <= lr, 0 < n <= d;
            assert(n * (lr - k) * (d * lr) < n * (lr - (k - 1)) * (d * lr)) by (nonlinear_arith)
                requires n > 0, d > 0, lr >= 1;
        }
    }
}

} // verus!
