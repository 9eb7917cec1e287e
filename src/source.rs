use vstd::prelude::*;
use crate::envelope::AMP_ONE;
use crate::settings::Waveform;

verus! {

/// One whole cycle in phase units: a phase is a fraction of it.
pub const PHASE_ONE: u64 = 4_294_967_296;

/// Half a cycle in phase units.
pub const PHASE_HALF: u64 = 2_147_483_648;

/// Phase advance per sample for a frequency of `freq_uhz` microhertz at
/// `rate` samples per second: `freq / rate` of a cycle, modulo one cycle;
/// nothing advances at a rate of 0.
pub open spec fn phase_step_of(freq_uhz: u64, rate: u32) -> int {
    if rate == 0 {
        0
    } else {
        (freq_uhz * PHASE_ONE / (rate * 1_000_000)) % (PHASE_ONE as int)
    }
}

/// Saw: `2·phase − 1`, in amplitude units.
pub open spec fn saw_at(phase: u32) -> int {
    2 * AMP_ONE * phase / (PHASE_ONE as int) - AMP_ONE
}

/// Square: the sign of `0.5 − phase`, in amplitude units.
pub open spec fn square_at(phase: u32) -> int {
    if phase < PHASE_HALF {
        AMP_ONE as int
    } else if phase == PHASE_HALF {
        0
    } else {
        -(AMP_ONE as int)
    }
}

/// Triangle: `1 − 4·|phase − 0.5|`, from −1 at phase 0 up to 1 at half a
/// cycle and back, in amplitude units.
pub open spec fn triangle_at(phase: u32) -> int {
    let dist = if phase >= PHASE_HALF { phase - PHASE_HALF } else { PHASE_HALF - phase };
    AMP_ONE - 4 * AMP_ONE * dist / (PHASE_ONE as int)
}

/// What a generator yields for one sample. The piecewise-linear waveforms
/// come as a level in amplitude units; a sine comes as the phase whose sine
/// is the sample; noise carries nothing, its sample being drawn at random.
#[derive(Debug, Clone, Copy, PartialEq, Eq, Structural)]
pub enum WaveSample {
    Level(i32),
    Sine(u32),
    Noise,
}

/// The sample of `w` at `phase`.
pub open spec fn sample_at(w: Waveform, phase: u32) -> WaveSample {
    match w {
        Waveform::Sine => WaveSample::Sine(phase),
        Waveform::Saw => WaveSample::Level(saw_at(phase) as i32),
        Waveform::Square => WaveSample::Level(square_at(phase) as i32),
        Waveform::Triangle => WaveSample::Level(triangle_at(phase) as i32),
        Waveform::Noise => WaveSample::Noise,
    }
}

/// Phase advance per sample for a frequency in microhertz.
pub fn phase_step(freq_uhz: u64, rate: u32) -> (r: u32)
    ensures
        r == phase_step_of(freq_uhz, rate),
{
    if rate == 0 {
        return 0;
    }
    assert(freq_uhz * PHASE_ONE <= 18_446_744_073_709_551_615u128 * PHASE_ONE) by (nonlinear_arith)
        requires freq_uhz <= 18_446_744_073_709_551_615u128;
    let num: u128 = freq_uhz as u128 * PHASE_ONE as u128;
    let den: u128 = rate as u128 * 1_000_000;
    ((num / den) % PHASE_ONE as u128) as u32
}

/// The sample of `w` at `phase`.
pub fn shape(w: Waveform, phase: u32) -> (r: WaveSample)
    ensures
        r == sample_at(w, phase),
        match r {
            WaveSample::Level(x) => -(AMP_ONE as int) <= x <= AMP_ONE,
            _ => true,
        },
{
    match w {
        Waveform::Sine => WaveSample::Sine(phase),
        Waveform::Saw => {
            assert(2 * AMP_ONE * phase <= 2 * AMP_ONE * PHASE_ONE) by (nonlinear_arith)
                requires phase < PHASE_ONE;
            let up: u64 = 2 * AMP_ONE as u64 * phase as u64 / PHASE_ONE;
            assert(up <= 2 * AMP_ONE) by (nonlinear_arith)
                requires up as int == (2 * AMP_ONE * phase) / (PHASE_ONE as int), phase < PHASE_ONE;
            WaveSample::Level((up as i64 - AMP_ONE as i64) as i32)
        },
        Waveform::Square => {
            let x: i32 = if (phase as u64) < PHASE_HALF {
                AMP_ONE as i32
            } else if phase as u64 == PHASE_HALF {
                0
            } else {
                -(AMP_ONE as i32)
            };
            WaveSample::Level(x)
        },
        Waveform::Triangle => {
            let p: u64 = phase as u64;
            let dist: u64 = if p >= PHASE_HALF { p - PHASE_HALF } else { PHASE_HALF - p };
            assert(4 * AMP_ONE * dist <= 4 * AMP_ONE * PHASE_HALF) by (nonlinear_arith)
                requires dist <= PHASE_HALF;
            let fall: u64 = 4 * AMP_ONE as u64 * dist / PHASE_ONE;
            assert(fall <= 2 * AMP_ONE) by (nonlinear_arith)
                requires fall as int == (4 * AMP_ONE * dist) / (PHASE_ONE as int), dist <= PHASE_HALF;
            WaveSample::Level((AMP_ONE as i64 - fall as i64) as i32)
        },
        Waveform::Noise => WaveSample::Noise,
    }
}

/// A generator of one waveform: the phase reached so far and the advance
/// per sample. It yields forever and cannot be rewound.
#[derive(Debug, Clone, Copy, PartialEq, Eq, Structural)]
pub struct Oscillator {
    pub waveform: Waveform,
    pub phase: u32,
    pub step: u32,
}

impl Oscillator {
    /// A generator of `waveform` at `freq_uhz` microhertz and `rate` samples
    /// per second, starting at phase 0.
    pub fn create_source(waveform: Waveform, freq_uhz: u64, rate: u32) -> (r: Oscillator)
        ensures
            r.waveform == waveform,
            r.phase == 0,
            r.step == phase_step_of(freq_uhz, rate),
    {
        Oscillator { waveform, phase: 0, step: phase_step(freq_uhz, rate) }
    }

    /// Advances the phase by one step, modulo a cycle, and yields the sample
    /// at the new phase.
    pub fn next_sample(&mut self) -> (r: WaveSample)
        ensures
            final(self).waveform == old(self).waveform,
            final(self).step == old(self).step,
            final(self).phase == (old(self).phase + old(self).step) % (PHASE_ONE as int),
            r == sample_at(old(self).waveform, final(self).phase),
    {
        self.phase = ((self.phase as u64 + self.step as u64) % PHASE_ONE) as u32;
        shape(self.waveform, self.phase)
    }
}

} // verus!
