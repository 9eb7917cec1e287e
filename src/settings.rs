use vstd::prelude::*;
use crate::envelope::{clamp, Adsr, AMP_ONE};

verus! {

/// Full volume; volumes are fractions of it.
pub const VOLUME_FULL: u32 = AMP_ONE;

/// Waveform that newly started voices generate.
#[derive(Debug, Clone, Copy, PartialEq, Eq, Hash, Structural)]
pub enum Waveform {
    Sine,
    Saw,
    Square,
    Triangle,
    Noise,
}

/// A change that running voices have to follow.
#[derive(Debug, Clone, Copy, PartialEq, Eq, Structural)]
pub enum SettingsChange {
    Volume,
    Muted,
}

/// What the settings store holds.
pub ghost struct SettingsView {
    pub source: Waveform,
    pub adsr: Adsr,
    pub volume: int,
    pub muted: bool,
    pub volume_listener: bool,
    pub muted_listener: bool,
    pub pending: Seq<SettingsChange>,
}

/// The change queue after a change of the given concern: one event, when an
/// engine listens for that concern.
pub open spec fn notified(
    pending: Seq<SettingsChange>,
    listening: bool,
    c: SettingsChange,
) -> Seq<SettingsChange> {
    if listening {
        pending.push(c)
    } else {
        pending
    }
}

/// The store after `set_volume(v)`: the volume clamped into full scale.
pub open spec fn with_volume(s: SettingsView, v: int) -> SettingsView {
    SettingsView {
        volume: clamp(v, 0, VOLUME_FULL as int),
        pending: notified(s.pending, s.volume_listener, SettingsChange::Volume),
        ..s
    }
}

/// The store after the mute flag is set to `m`.
pub open spec fn with_muted(s: SettingsView, m: bool) -> SettingsView {
    SettingsView {
        muted: m,
        pending: notified(s.pending, s.muted_listener, SettingsChange::Muted),
        ..s
    }
}

/// The store after the mute flag is flipped.
pub open spec fn toggled(s: SettingsView) -> SettingsView {
    with_muted(s, !s.muted)
}

/// Toggling the mute flag twice gives back the mute state it had.
pub proof fn lemma_toggle_twice(s: SettingsView)
    ensures
        toggled(toggled(s)).muted == s.muted,
        toggled(s).muted != s.muted,
{
}

/// Setting a volume stores it clamped into `[0, VOLUME_FULL]`, whatever it was.
pub proof fn lemma_volume_clamped(s: SettingsView, v: int)
    ensures
        0 <= with_volume(s, v).volume <= VOLUME_FULL,
        v >= VOLUME_FULL ==> with_volume(s, v).volume == VOLUME_FULL,
        v <= 0 ==> with_volume(s, v).volume == 0,
{
}

/// The synthesizer's settings: waveform and envelope of the next voices,
/// volume and mute state of all voices, and the queue of changes that running
/// voices still have to follow.
pub struct AudioState {
    source: Waveform,
    adsr: Adsr,
    volume: u32,
    muted: bool,
    volume_listener: bool,
    muted_listener: bool,
    pending: Vec<SettingsChange>,
}

impl View for AudioState {
    type V = SettingsView;

    closed spec fn view(&self) -> SettingsView {
        SettingsView {
            source: self.source,
            adsr: self.adsr,
            volume: self.volume as int,
            muted: self.muted,
            volume_listener: self.volume_listener,
            muted_listener: self.muted_listener,
            pending: self.pending@,
        }
    }
}

impl AudioState {
    /// A volume within full scale.
    pub open spec fn wf(&self) -> bool {
        0 <= self@.volume <= VOLUME_FULL
    }

    /// Sine waves, the given envelope, full volume, not muted, nobody listening.
    pub fn new(adsr: Adsr) -> (r: AudioState)
        ensures
            r.wf(),
            r@.source == Waveform::Sine,
            r@.adsr == adsr,
            r@.volume == VOLUME_FULL,
            !r@.muted,
            !r@.volume_listener,
            !r@.muted_listener,
            r@.pending.len() == 0,
    {
        AudioState {
            source: Waveform::Sine,
            adsr,
            volume: VOLUME_FULL,
            muted: false,
            volume_listener: false,
            muted_listener: false,
            pending: Vec::new(),
        }
    }

    pub fn get_source(&self) -> (r: Waveform)
        ensures
            r == self@.source,
    {
        self.source
    }

    /// Selects the waveform of voices started from now on; running voices
    /// keep theirs, so nobody is notified.
    pub fn set_source(&mut self, source: Waveform)
        ensures
            final(self)@ == (SettingsView { source, ..old(self)@ }),
    {
        self.source = source;
    }

    pub fn get_adsr(&self) -> (r: Adsr)
        ensures
            r == self@.adsr,
    {
        self.adsr
    }

    /// Replaces the envelope that voices started from now on copy.
    pub fn set_adsr(&mut self, adsr: Adsr)
        ensures
            final(self)@ == (SettingsView { adsr, ..old(self)@ }),
    {
        self.adsr = adsr;
    }

    pub fn get_volume(&self) -> (r: u32)
        requires
            self.wf(),
        ensures
            r == self@.volume,
            r <= VOLUME_FULL,
    {
        self.volume
    }

    /// Stores the volume clamped into `[0, VOLUME_FULL]` and notifies a
    /// listening engine.
    pub fn set_volume(&mut self, vol: i64)
        ensures
            final(self)@ == with_volume(old(self)@, vol as int),
            final(self).wf(),
    {
        let clamped: u32 = if vol < 0 {
            0
        } else if vol > VOLUME_FULL as i64 {
            VOLUME_FULL
        } else {
            vol as u32
        };
        self.volume = clamped;
        if self.volume_listener {
            self.pending.push(SettingsChange::Volume);
        }
    }

    pub fn is_muted(&self) -> (r: bool)
        ensures
            r == self@.muted,
    {
        self.muted
    }

    /// Sets the mute flag and notifies a listening engine.
    pub fn set_muted(&mut self, muted: bool)
        ensures
            final(self)@ == with_muted(old(self)@, muted),
    {
        self.muted = muted;
        if self.muted_listener {
            self.pending.push(SettingsChange::Muted);
        }
    }

    /// Flips the mute flag, notifies a listening engine and returns the new flag.
    pub fn toggle_muted(&mut self) -> (r: bool)
        ensures
            final(self)@ == toggled(old(self)@),
            r == final(self)@.muted,
            r == !old(self)@.muted,
    {
        let m = !self.muted;
        self.set_muted(m);
        m
    }

    /// From now on volume changes are queued for the engine.
    pub fn set_volume_notify(&mut self)
        ensures
            final(self)@ == (SettingsView { volume_listener: true, ..old(self)@ }),
    {
        self.volume_listener = true;
    }

    /// From now on mute changes are queued for the engine.
    pub fn set_muted_notify(&mut self)
        ensures
            final(self)@ == (SettingsView { muted_listener: true, ..old(self)@ }),
    {
        self.muted_listener = true;
    }

    /// Hands the queued changes to the engine, oldest first, and empties the queue.
    pub fn take_changes(&mut self) -> (r: Vec<SettingsChange>)
        ensures
            r@ == old(self)@.pending,
            final(self)@ == (SettingsView { pending: Seq::empty(), ..old(self)@ }),
    {
        let mut out: Vec<SettingsChange> = Vec::new();
        std::mem::swap(&mut out, &mut self.pending);
        assert(self@ == (SettingsView { pending: Seq::empty(), ..old(self)@ }));
        out
    }
}

} // verus!
