use vstd::prelude::*;
use crate::envelope::{clamp, Adsr, AMP_ONE, MAX_STAGE_MS};
use crate::settings::Waveform;

verus! {

/// Pane of the control screen that has the focus.
#[derive(Debug, Clone, Copy, PartialEq, Eq, Structural)]
pub enum FocusPane {
    Waveforms,
    Adsr,
    Bottom,
}

/// The pane that Tab moves to, in a cycle.
pub open spec fn next_pane(p: FocusPane) -> FocusPane {
    match p {
        FocusPane::Waveforms => FocusPane::Adsr,
        FocusPane::Adsr => FocusPane::Bottom,
        FocusPane::Bottom => FocusPane::Waveforms,
    }
}

impl FocusPane {
    /// The pane that Tab moves to, in a cycle.
    pub fn next(self) -> (r: FocusPane)
        ensures
            r == next_pane(self),
    {
        match self {
            FocusPane::Waveforms => FocusPane::Adsr,
            FocusPane::Adsr => FocusPane::Bottom,
            FocusPane::Bottom => FocusPane::Waveforms,
        }
    }
}

/// Envelope parameter selected for editing.
#[derive(Debug, Clone, Copy, PartialEq, Eq, Structural)]
pub enum AdsrParam {
    Attack,
    Decay,
    Sustain,
    Release,
}

/// The parameters in the order the screen lists them.
pub open spec fn adsr_param_at(i: int) -> AdsrParam {
    if i == 0 {
        AdsrParam::Attack
    } else if i == 1 {
        AdsrParam::Decay
    } else if i == 2 {
        AdsrParam::Sustain
    } else {
        AdsrParam::Release
    }
}

/// The label of a parameter on the screen.
pub open spec fn adsr_param_label(p: AdsrParam) -> Seq<char> {
    match p {
        AdsrParam::Attack => seq!['A', 't', 't', 'a', 'c', 'k', ' ', '(', 's', ')'],
        AdsrParam::Decay => seq!['D', 'e', 'c', 'a', 'y', ' ', '(', 's', ')'],
        AdsrParam::Sustain => seq!['S', 'u', 's', 't', 'a', 'i', 'n', ' ', '(', '0', '.', '.', '1', ')'],
        AdsrParam::Release => seq!['R', 'e', 'l', 'e', 'a', 's', 'e', ' ', '(', 's', ')'],
    }
}

impl AdsrParam {
    /// All parameters, in screen order.
    pub fn all() -> (r: [AdsrParam; 4])
        ensures
            forall|i: int| 0 <= i < 4 ==> r@[i] == adsr_param_at(i),
    {
        [AdsrParam::Attack, AdsrParam::Decay, AdsrParam::Sustain, AdsrParam::Release]
    }

    pub fn name(self) -> (r: &'static str)
        ensures
            r@ == adsr_param_label(self),
    {
        match self {
            AdsrParam::Attack => {
                proof { reveal_strlit("Attack (s)"); }
                "Attack (s)"
            },
            AdsrParam::Decay => {
                proof { reveal_strlit("Decay (s)"); }
                "Decay (s)"
            },
            AdsrParam::Sustain => {
                proof { reveal_strlit("Sustain (0..1)"); }
                "Sustain (0..1)"
            },
            AdsrParam::Release => {
                proof { reveal_strlit("Release (s)"); }
                "Release (s)"
            },
        }
    }
}

/// The step by which Left and Right change a parameter: a hundredth of a
/// second for durations, a hundredth of full scale for the sustain level.
pub open spec fn small_step(p: AdsrParam) -> int {
    match p {
        AdsrParam::Sustain => AMP_ONE as int / 100,
        _ => 10,
    }
}

pub fn ui_selected_small_step(p: AdsrParam) -> (r: u32)
    ensures
        r == small_step(p),
{
    match p {
        AdsrParam::Sustain => AMP_ONE / 100,
        _ => 10,
    }
}

/// The envelope after parameter `p` moved one step in direction `dir`
/// (down when negative): durations stay within `[0, MAX_STAGE_MS]`, the
/// sustain level within `[0, AMP_ONE]`; the other parameters are kept.
pub open spec fn tweaked(a: Adsr, p: AdsrParam, dir: int) -> Adsr {
    let d = if dir < 0 { -small_step(p) } else { small_step(p) };
    let m = MAX_STAGE_MS as int;
    match p {
        AdsrParam::Attack => Adsr { attack_ms: clamp(a.attack_ms + d, 0, m) as u32, ..a },
        AdsrParam::Decay => Adsr { decay_ms: clamp(a.decay_ms + d, 0, m) as u32, ..a },
        AdsrParam::Sustain => Adsr { sustain: clamp(a.sustain + d, 0, AMP_ONE as int) as u32, ..a },
        AdsrParam::Release => Adsr { release_ms: clamp(a.release_ms + d, 0, m) as u32, ..a },
    }
}

fn step_clamped(x: u32, d: i64, hi: u32) -> (r: u32)
    requires
        -1_000_000 <= d <= 1_000_000,
    ensures
        r == clamp(x + d, 0, hi as int),
{
    let y: i64 = x as i64 + d;
    if y < 0 {
        0
    } else if y > hi as i64 {
        hi
    } else {
        y as u32
    }
}

/// Moves parameter `p` of `adsr` one step in direction `dir`.
pub fn tweak_adsr(adsr: &mut Adsr, p: AdsrParam, dir: i32)
    ensures
        *final(adsr) == tweaked(*old(adsr), p, dir as int),
{
    let step: i64 = ui_selected_small_step(p) as i64;
    let d: i64 = if dir < 0 { -step } else { step };
    match p {
        AdsrParam::Attack => {
            adsr.attack_ms = step_clamped(adsr.attack_ms, d, MAX_STAGE_MS);
        },
        AdsrParam::Decay => {
            adsr.decay_ms = step_clamped(adsr.decay_ms, d, MAX_STAGE_MS);
        },
        AdsrParam::Sustain => {
            adsr.sustain = step_clamped(adsr.sustain, d, AMP_ONE);
        },
        AdsrParam::Release => {
            adsr.release_ms = step_clamped(adsr.release_ms, d, MAX_STAGE_MS);
        },
    }
}

/// A key that the control screen reacts to.
#[derive(Debug, Clone, Copy, PartialEq, Eq, Structural)]
pub enum UiKey {
    Up,
    Down,
    Left,
    Right,
    Tab,
}

/// What a key on the control screen asks of the synthesizer.
#[derive(Debug, Clone, Copy, PartialEq, Eq, Structural)]
pub enum UiAction {
    Nothing,
    SetWaveform(Waveform),
    SetAdsr(Adsr),
}

/// The waveforms the screen offers, top to bottom.
pub open spec fn waveform_at(i: int) -> Waveform {
    if i == 0 {
        Waveform::Sine
    } else if i == 1 {
        Waveform::Saw
    } else if i == 2 {
        Waveform::Square
    } else if i == 3 {
        Waveform::Triangle
    } else {
        Waveform::Noise
    }
}

/// Number of waveforms the screen offers.
pub const WAVEFORM_COUNT: usize = 5;

/// Number of envelope parameters the screen offers.
pub const ADSR_PARAM_COUNT: usize = 4;

/// What the control screen shows and edits.
pub struct UiState {
    pub focus: FocusPane,
    pub waveform_idx: usize,
    pub adsr_param_idx: usize,
    pub adsr: Adsr,
    pub muted: bool,
    pub volume: u32,
}

impl UiState {
    pub open spec fn wf(&self) -> bool {
        self.waveform_idx < WAVEFORM_COUNT && self.adsr_param_idx < ADSR_PARAM_COUNT
    }

    /// Focus on the waveforms, the first waveform and parameter selected.
    pub fn new(initial_adsr: Adsr) -> (r: UiState)
        ensures
            r.wf(),
            r.focus == FocusPane::Waveforms,
            r.waveform_idx == 0,
            r.adsr_param_idx == 0,
            r.adsr == initial_adsr,
            !r.muted,
            r.volume == AMP_ONE,
    {
        UiState {
            focus: FocusPane::Waveforms,
            waveform_idx: 0,
            adsr_param_idx: 0,
            adsr: initial_adsr,
            muted: false,
            volume: AMP_ONE,
        }
    }

    pub fn selected_waveform(&self) -> (r: Waveform)
        ensures
            r == waveform_at(self.waveform_idx as int),
    {
        let i = self.waveform_idx;
        if i == 0 {
            Waveform::Sine
        } else if i == 1 {
            Waveform::Saw
        } else if i == 2 {
            Waveform::Square
        } else if i == 3 {
            Waveform::Triangle
        } else {
            Waveform::Noise
        }
    }

    pub fn selected_adsr_param(&self) -> (r: AdsrParam)
        requires
            self.wf(),
        ensures
            r == adsr_param_at(self.adsr_param_idx as int),
    {
        AdsrParam::all()[self.adsr_param_idx]
    }

    /// Reacts to a key: Tab cycles the focus; in the waveform pane Up and
    /// Down move the selection and select that waveform; in the envelope pane
    /// Up and Down move between parameters, Left and Right change the
    /// selected one.
    pub fn handle_key(&mut self, key: UiKey) -> (r: UiAction)
        requires
            old(self).wf(),
        ensures
            final(self).wf(),
            key == UiKey::Tab ==> final(self).focus == next_pane(old(self).focus) && r == UiAction::Nothing
                && final(self).waveform_idx == old(self).waveform_idx
                && final(self).adsr_param_idx == old(self).adsr_param_idx
                && final(self).adsr == old(self).adsr,
            key != UiKey::Tab ==> final(self).focus == old(self).focus,
            old(self).focus == FocusPane::Waveforms && key == UiKey::Up ==> if old(self).waveform_idx > 0 {
                final(self).waveform_idx == old(self).waveform_idx - 1
                    && r == UiAction::SetWaveform(waveform_at(old(self).waveform_idx - 1))
            } else {
                final(self).waveform_idx == 0 && r == UiAction::Nothing
            },
            old(self).focus == FocusPane::Waveforms && key == UiKey::Down ==> if old(self).waveform_idx + 1 < WAVEFORM_COUNT {
                final(self).waveform_idx == old(self).waveform_idx + 1
                    && r == UiAction::SetWaveform(waveform_at(old(self).waveform_idx + 1))
            } else {
                final(self).waveform_idx == old(self).waveform_idx && r == UiAction::Nothing
            },
            old(self).focus == FocusPane::Waveforms && (key == UiKey::Left || key == UiKey::Right) ==> r
                == UiAction::Nothing && final(self).waveform_idx == old(self).waveform_idx,
            old(self).focus == FocusPane::Waveforms && key != UiKey::Tab ==> final(self).adsr == old(self).adsr
                && final(self).adsr_param_idx == old(self).adsr_param_idx,
            old(self).focus == FocusPane::Adsr && key == UiKey::Up ==> r == UiAction::Nothing
                && final(self).adsr_param_idx == if old(self).adsr_param_idx > 0 { old(self).adsr_param_idx - 1 } else { 0 }
                && final(self).adsr == old(self).adsr,
            old(self).focus == FocusPane::Adsr && key == UiKey::Down ==> r == UiAction::Nothing
                && final(self).adsr_param_idx == if old(self).adsr_param_idx + 1 < ADSR_PARAM_COUNT {
                    old(self).adsr_param_idx + 1
                } else {
                    old(self).adsr_param_idx as int
                }
                && final(self).adsr == old(self).adsr,
            old(self).focus == FocusPane::Adsr && (key == UiKey::Left || key == UiKey::Right) ==> {
                let a = tweaked(
                    old(self).adsr,
                    adsr_param_at(old(self).adsr_param_idx as int),
                    if key == UiKey::Left { -1 } else { 1 },
                );
                final(self).adsr == a && r == UiAction::SetAdsr(a)
                    && final(self).adsr_param_idx == old(self).adsr_param_idx
            },
            old(self).focus == FocusPane::Adsr && key != UiKey::Tab ==> final(self).waveform_idx
                == old(self).waveform_idx,
            old(self).focus == FocusPane::Bottom && key != UiKey::Tab ==> r == UiAction::Nothing
                && final(self).waveform_idx == old(self).waveform_idx
                && final(self).adsr_param_idx == old(self).adsr_param_idx
                && final(self).adsr == old(self).adsr,
            final(self).muted == old(self).muted,
            final(self).volume == old(self).volume,
    {
        if key == UiKey::Tab {
            self.focus = self.focus.next();
            return UiAction::Nothing;
        }
        match self.focus {
            FocusPane::Waveforms => {
                let mut changed = false;
                if key == UiKey::Up {
                    if self.waveform_idx > 0 {
                        self.waveform_idx = self.waveform_idx - 1;
                        changed = true;
                    }
                } else if key == UiKey::Down {
                    if self.waveform_idx + 1 < WAVEFORM_COUNT {
                        self.waveform_idx = self.waveform_idx + 1;
                        changed = true;
                    }
                }
                if changed {
                    UiAction::SetWaveform(self.selected_waveform())
                } else {
                    UiAction::Nothing
                }
            },
            FocusPane::Adsr => {
                if key == UiKey::Up {
                    if self.adsr_param_idx > 0 {
                        self.adsr_param_idx = self.adsr_param_idx - 1;
                    }
                    UiAction::Nothing
                } else if key == UiKey::Down {
                    if self.adsr_param_idx + 1 < ADSR_PARAM_COUNT {
                        self.adsr_param_idx = self.adsr_param_idx + 1;
                    }
                    UiAction::Nothing
                } else {
                    let dir: i32 = if key == UiKey::Left { -1 } else { 1 };
                    let p = self.selected_adsr_param();
                    tweak_adsr(&mut self.adsr, p, dir);
                    UiAction::SetAdsr(self.adsr)
                }
            },
            FocusPane::Bottom => UiAction::Nothing,
        }
    }
}

/// Frames drawn in the last whole second.
pub struct FpsCounter {
    frames: usize,
    framerate: usize,
    last_update_ms: u64,
}

impl FpsCounter {
    pub closed spec fn frames(&self) -> nat {
        self.frames as nat
    }

    pub closed spec fn framerate(&self) -> nat {
        self.framerate as nat
    }

    pub closed spec fn last_update_ms(&self) -> nat {
        self.last_update_ms as nat
    }

    /// No frame counted yet, the second starting at `now_ms`.
    pub fn new(now_ms: u64) -> (r: FpsCounter)
        ensures
            r.frames() == 0,
            r.framerate() == 0,
            r.last_update_ms() == now_ms,
    {
        FpsCounter { frames: 0, framerate: 0, last_update_ms: now_ms }
    }

    /// Counts one frame drawn at `now_ms`; once a second or more has passed
    /// since the last update, the count becomes the frame rate and counting
    /// starts again.
    pub fn tick(&mut self, now_ms: u64)
        ensures
            ({
                let counted = if old(self).frames() < usize::MAX { old(self).frames() + 1 } else { old(self).frames() };
                if now_ms >= old(self).last_update_ms() + 1000 {
                    final(self).framerate() == counted && final(self).frames() == 0
                        && final(self).last_update_ms() == now_ms
                } else {
                    final(self).framerate() == old(self).framerate() && final(self).frames() == counted
                        && final(self).last_update_ms() == old(self).last_update_ms()
                }
            }),
    {
        if self.frames < usize::MAX {
            self.frames = self.frames + 1;
        }
        if now_ms >= self.last_update_ms && now_ms - self.last_update_ms >= 1000 {
            self.framerate = self.frames;
            self.frames = 0;
            self.last_update_ms = now_ms;
        }
    }

    pub fn get(&self) -> (r: usize)
        ensures
            r == self.framerate(),
    {
        self.framerate
    }
}

} // verus!
