use vstd::prelude::*;
use crate::envelope::{amp_lt, lemma_note_tail, rest_envelope, Adsr, Amplitude};
use crate::pitch::{layout_key, Key, Note};
use crate::settings::{AudioState, SettingsView, Waveform};

verus! {

/// A sounding note as the manager sees it: the physical key that started it,
/// the musical key it plays, and whether its gate is still open.
#[derive(Debug, Clone, Copy, PartialEq, Eq, Structural)]
pub struct Voice {
    pub id: char,
    pub key: Key,
    pub gate_open: bool,
}

/// What the audio side has to start for a new voice: the generator, the
/// envelope copied at note-on, and the volume and pause state to begin with.
#[derive(Debug, Clone, Copy, PartialEq, Eq, Structural)]
pub struct VoiceStart {
    pub id: char,
    pub key: Key,
    pub waveform: Waveform,
    pub adsr: Adsr,
    pub volume: u32,
    pub paused: bool,
}

/// Whether a voice for `id` is among `vs`.
pub open spec fn has_voice(vs: Seq<Voice>, id: char) -> bool {
    exists|i: int| 0 <= i < vs.len() && vs[i].id == id
}

/// At most one voice per physical key.
pub open spec fn ids_unique(vs: Seq<Voice>) -> bool {
    forall|i: int, j: int| 0 <= i < vs.len() && 0 <= j < vs.len() && vs[i].id == vs[j].id ==> i == j
}

/// The voices after a note-on: unchanged when `id` already sounds, else one
/// more voice with an open gate.
pub open spec fn after_note_on(vs: Seq<Voice>, id: char, key: Key) -> Seq<Voice> {
    if has_voice(vs, id) {
        vs
    } else {
        vs.push(Voice { id, key, gate_open: true })
    }
}

/// The voices after a note-off: `id`'s voice with its gate closed, if it has one.
pub open spec fn after_note_off(vs: Seq<Voice>, id: char) -> Seq<Voice> {
    vs.map_values(|v: Voice| if v.id == id { Voice { gate_open: false, ..v } } else { v })
}

/// The voices once `id`'s voice is gone: unchanged without one, else the
/// others in their order.
pub open spec fn without_voice(vs: Seq<Voice>, id: char) -> Seq<Voice> {
    if has_voice(vs, id) {
        vs.remove(choose|i: int| 0 <= i < vs.len() && vs[i].id == id)
    } else {
        vs
    }
}

/// A second note-on for a key that already sounds changes nothing: one key
/// held down gives exactly one voice.
pub proof fn lemma_note_on_idempotent(vs: Seq<Voice>, id: char, k1: Key, k2: Key)
    requires
        ids_unique(vs),
    ensures
        after_note_on(after_note_on(vs, id, k1), id, k2) == after_note_on(vs, id, k1),
        has_voice(after_note_on(vs, id, k1), id),
        ids_unique(after_note_on(vs, id, k1)),
{
    let w = after_note_on(vs, id, k1);
    if !has_voice(vs, id) {
        assert(w[vs.len() as int].id == id);
    }
}

/// The keys of `a` that `b` lacks, in the order of `a`.
pub open spec fn key_difference(a: Seq<char>, b: Seq<char>) -> Seq<char> {
    a.filter(absent_from(b))
}

/// Holds of the keys that `b` lacks.
pub open spec fn absent_from(b: Seq<char>) -> spec_fn(char) -> bool {
    |c: char| !b.contains(c)
}

/// The start order for a new voice under the given settings.
pub open spec fn start_of(id: char, key: Key, st: SettingsView) -> VoiceStart {
    VoiceStart {
        id,
        key,
        waveform: st.source,
        adsr: st.adsr,
        volume: st.volume as u32,
        paused: st.muted,
    }
}

/// The voices after the keys `cs` are pressed one after the other.
pub open spec fn pressed_all(vs: Seq<Voice>, cs: Seq<char>) -> Seq<Voice>
    decreases cs.len(),
{
    if cs.len() == 0 {
        vs
    } else {
        let w = pressed_all(vs, cs.drop_last());
        let c = cs.last();
        match layout_key(c) {
            Some(k) => after_note_on(w, c, k),
            None => w,
        }
    }
}

/// The voices that pressing the keys `cs` one after the other starts.
pub open spec fn started_all(vs: Seq<Voice>, cs: Seq<char>, st: SettingsView) -> Seq<VoiceStart>
    decreases cs.len(),
{
    if cs.len() == 0 {
        Seq::empty()
    } else {
        let w = pressed_all(vs, cs.drop_last());
        let prior = started_all(vs, cs.drop_last(), st);
        let c = cs.last();
        match layout_key(c) {
            Some(k) => if has_voice(w, c) {
                prior
            } else {
                prior.push(start_of(c, k, st))
            },
            None => prior,
        }
    }
}

/// The voices after the keys `cs` are released one after the other.
pub open spec fn released_all(vs: Seq<Voice>, cs: Seq<char>) -> Seq<Voice>
    decreases cs.len(),
{
    if cs.len() == 0 {
        vs
    } else {
        after_note_off(released_all(vs, cs.drop_last()), cs.last())
    }
}

/// Whether `vs` holds a voice for `id` whose gate is open.
pub open spec fn gate_is_open(vs: Seq<Voice>, id: char) -> bool {
    exists|i: int| 0 <= i < vs.len() && vs[i].id == id && vs[i].gate_open
}

/// The keys among `cs` whose gates releasing them one after the other closes.
pub open spec fn closed_all(vs: Seq<Voice>, cs: Seq<char>) -> Seq<char>
    decreases cs.len(),
{
    if cs.len() == 0 {
        Seq::empty()
    } else {
        let w = released_all(vs, cs.drop_last());
        let prior = closed_all(vs, cs.drop_last());
        if gate_is_open(w, cs.last()) {
            prior.push(cs.last())
        } else {
            prior
        }
    }
}

/// Pressing the `a` key starts one voice playing C of octave 4 with the
/// current envelope; releasing it closes that voice's gate. An envelope of
/// those parameters, held through its attack and decay and then released,
/// fades strictly to 0 within the release and ends, whenever its sustain
/// level is above 0.
pub proof fn lemma_press_and_release_a(vs: Seq<Voice>, st: SettingsView, rate: u32, held: nat)
    requires
        ids_unique(vs),
        !has_voice(vs, 'a'),
        rest_envelope(st.adsr, rate).attack_len() > 0,
        rest_envelope(st.adsr, rate).decay_len() > 0,
        rest_envelope(st.adsr, rate).release_len() > 0,
        rest_envelope(st.adsr, rate).sustain_level() > 0,
        held >= rest_envelope(st.adsr, rate).attack_len() + rest_envelope(st.adsr, rate).decay_len(),
    ensures
        started_all(vs, seq!['a'], st) == seq![start_of('a', Key { note: Note::C, octave: 4 }, st)],
        closed_all(pressed_all(vs, seq!['a']), seq!['a']) == seq!['a'],
        !gate_is_open(released_all(pressed_all(vs, seq!['a']), seq!['a']), 'a'),
        ({
            let e = rest_envelope(st.adsr, rate);
            let lr = e.release_len();
            &&& forall|k: nat|
                1 <= k <= lr ==> amp_lt(
                    (#[trigger] e.run(true, held).run(false, k)).current_amp,
                    e.run(true, held).run(false, (k - 1) as nat).current_amp,
                )
            &&& e.run(true, held).run(false, lr as nat).current_amp.num == 0
            &&& e.run(true, held).run(false, lr as nat).step_output(false) == None::<Amplitude>
        }),
{
    let one = seq!['a'];
    assert(one.drop_last() =~= Seq::<char>::empty());
    let w = pressed_all(vs, one);
    let k = Key { note: Note::C, octave: 4 };
    assert(pressed_all(vs, one.drop_last()) == vs);
    assert(one.last() == 'a');
    assert(layout_key('a') == Some(k));
    assert(w == vs.push(Voice { id: 'a', key: k, gate_open: true }));
    assert(w[vs.len() as int].id == 'a');
    assert(gate_is_open(w, 'a'));
    assert(released_all(w, one.drop_last()) == w);
    assert(released_all(w, one) == after_note_off(w, 'a'));
    assert(closed_all(w, one.drop_last()) == Seq::<char>::empty());
    assert(started_all(vs, one.drop_last(), st) == Seq::<VoiceStart>::empty());
    let z = after_note_off(w, 'a');
    if gate_is_open(z, 'a') {
        let i = choose|i: int| 0 <= i < z.len() && z[i].id == 'a' && z[i].gate_open;
        assert(z[i] == (if w[i].id == 'a' { Voice { gate_open: false, ..w[i] } } else { w[i] }));
    }
    let e = rest_envelope(st.adsr, rate);
    lemma_note_tail(e, held);
}

/// What the audio side does after the held keys changed: start these voices,
/// close these gates.
pub struct KeyActions {
    pub starts: Vec<VoiceStart>,
    pub releases: Vec<char>,
}

fn contains_key(v: &Vec<char>, c: char) -> (r: bool)
    ensures
        r == v@.contains(c),
{
    let mut i: usize = 0;
    while i < v.len()
        invariant
            i <= v@.len(),
            forall|j: int| 0 <= j < i ==> v@[j] != c,
        decreases v@.len() - i,
    {
        if v[i] == c {
            return true;
        }
        i = i + 1;
    }
    false
}

/// The keys of `a` that `b` lacks, in the order of `a`.
pub fn key_difference_of(a: &Vec<char>, b: &Vec<char>) -> (r: Vec<char>)
    ensures
        r@ == key_difference(a@, b@),
{
    let ghost f = absent_from(b@);
    let mut out: Vec<char> = Vec::new();
    let mut i: usize = 0;
    while i < a.len()
        invariant
            i <= a@.len(),
            f == absent_from(b@),
            out@ == a@.take(i as int).filter(f),
        decreases a@.len() - i,
    {
        let c = a[i];
        proof {
            assert(a@.take(i + 1) =~= a@.take(i as int).push(c));
            a@.take(i as int).lemma_filter_push(c, f);
        }
        let present = contains_key(b, c);
        if !present {
            out.push(c);
        }
        assert(f(c) == !present);
        assert(out@ == a@.take(i + 1).filter(f));
        i = i + 1;
    }
    assert(a@.take(i as int) =~= a@);
    out
}

/// The live voices, indexed by the physical key that started each.
pub struct Play {
    voices: Vec<Voice>,
}

impl View for Play {
    type V = Seq<Voice>;

    closed spec fn view(&self) -> Seq<Voice> {
        self.voices@
    }
}

impl Play {
    pub open spec fn wf(&self) -> bool {
        ids_unique(self@)
    }

    /// No voice sounds.
    pub fn new() -> (r: Play)
        ensures
            r@ == Seq::<Voice>::empty(),
            r.wf(),
    {
        Play { voices: Vec::new() }
    }

    /// Position of `id`'s voice.
    fn find(&self, id: char) -> (r: Option<usize>)
        ensures
            match r {
                Some(i) => i < self@.len() && self@[i as int].id == id,
                None => !has_voice(self@, id),
            },
    {
        let mut i: usize = 0;
        while i < self.voices.len()
            invariant
                i <= self.voices@.len(),
                forall|j: int| 0 <= j < i ==> self.voices@[j].id != id,
            decreases self.voices@.len() - i,
        {
            if self.voices[i].id == id {
                return Some(i);
            }
            i = i + 1;
        }
        None
    }

    /// Whether a voice for `id` sounds.
    pub fn has_voice(&self, id: char) -> (r: bool)
        ensures
            r == has_voice(self@, id),
    {
        self.find(id).is_some()
    }

    pub fn voice_count(&self) -> (r: usize)
        ensures
            r == self@.len(),
    {
        self.voices.len()
    }

    /// Whether `id`'s voice still has its gate open; `None` without a voice.
    pub fn gate_open(&self, id: char) -> (r: Option<bool>)
        requires
            self.wf(),
        ensures
            !has_voice(self@, id) ==> r.is_none(),
            forall|i: int| 0 <= i < self@.len() && self@[i].id == id ==> r == Some(self@[i].gate_open),
    {
        match self.find(id) {
            Some(i) => Some(self.voices[i].gate_open),
            None => None,
        }
    }

    /// Starts a voice for `id` playing `key`, unless `id` already sounds. The
    /// voice takes the current waveform, envelope and volume, and starts
    /// paused when the synthesizer is muted.
    pub fn note_on(&mut self, id: char, key: Key, settings: &AudioState) -> (r: Option<VoiceStart>)
        requires
            old(self).wf(),
            settings.wf(),
        ensures
            final(self).wf(),
            final(self)@ == after_note_on(old(self)@, id, key),
            has_voice(old(self)@, id) ==> r.is_none(),
            !has_voice(old(self)@, id) ==> r == Some(
                VoiceStart {
                    id,
                    key,
                    waveform: settings@.source,
                    adsr: settings@.adsr,
                    volume: settings@.volume as u32,
                    paused: settings@.muted,
                },
            ),
    {
        if self.find(id).is_some() {
            return None;
        }
        self.voices.push(Voice { id, key, gate_open: true });
        assert(self@ == after_note_on(old(self)@, id, key));
        Some(
            VoiceStart {
                id,
                key,
                waveform: settings.get_source(),
                adsr: settings.get_adsr(),
                volume: settings.get_volume(),
                paused: settings.is_muted(),
            },
        )
    }

    /// Starts the note of a computer-keyboard key, if the layout gives it one.
    pub fn play_note(&mut self, keycode: char, settings: &AudioState) -> (r: Option<VoiceStart>)
        requires
            old(self).wf(),
            settings.wf(),
        ensures
            final(self).wf(),
            layout_key(keycode).is_none() ==> r.is_none() && final(self)@ == old(self)@,
            layout_key(keycode).is_some() ==> final(self)@ == after_note_on(
                old(self)@,
                keycode,
                layout_key(keycode).unwrap(),
            ),
            layout_key(keycode).is_some() && !has_voice(old(self)@, keycode) ==> r == Some(
                VoiceStart {
                    id: keycode,
                    key: layout_key(keycode).unwrap(),
                    waveform: settings@.source,
                    adsr: settings@.adsr,
                    volume: settings@.volume as u32,
                    paused: settings@.muted,
                },
            ),
            has_voice(old(self)@, keycode) ==> r.is_none(),
    {
        match Key::from_keycode(keycode) {
            Some(key) => self.note_on(keycode, key, settings),
            None => None,
        }
    }

    /// Reacts to a change of the held keys: the keys held now and not before
    /// are pressed, in the order of `now`; then the keys held before and not
    /// now are released, in the order of `prev`.
    pub fn on_keys(&mut self, now: &Vec<char>, prev: &Vec<char>, settings: &AudioState) -> (r: KeyActions)
        requires
            old(self).wf(),
            settings.wf(),
        ensures
            final(self).wf(),
            final(self)@ == released_all(
                pressed_all(old(self)@, key_difference(now@, prev@)),
                key_difference(prev@, now@),
            ),
            r.starts@ == started_all(old(self)@, key_difference(now@, prev@), settings@),
            r.releases@ == closed_all(
                pressed_all(old(self)@, key_difference(now@, prev@)),
                key_difference(prev@, now@),
            ),
    {
        let pressed = key_difference_of(now, prev);
        let released = key_difference_of(prev, now);
        let ghost v0 = self@;
        let mut starts: Vec<VoiceStart> = Vec::new();
        let mut i: usize = 0;
        while i < pressed.len()
            invariant
                i <= pressed@.len(),
                self.wf(),
                settings.wf(),
                self@ == pressed_all(v0, pressed@.take(i as int)),
                starts@ == started_all(v0, pressed@.take(i as int), settings@),
            decreases pressed@.len() - i,
        {
            let c = pressed[i];
            proof {
                assert(pressed@.take(i + 1).drop_last() =~= pressed@.take(i as int));
            }
            match self.play_note(c, settings) {
                Some(st) => {
                    starts.push(st);
                },
                None => {},
            }
            i = i + 1;
        }
        assert(pressed@.take(i as int) =~= pressed@);
        let ghost v1 = self@;
        let mut releases: Vec<char> = Vec::new();
        let mut j: usize = 0;
        while j < released.len()
            invariant
                j <= released@.len(),
                self.wf(),
                self@ == released_all(v1, released@.take(j as int)),
                releases@ == closed_all(v1, released@.take(j as int)),
            decreases released@.len() - j,
        {
            let c = released[j];
            proof {
                assert(released@.take(j + 1).drop_last() =~= released@.take(j as int));
            }
            if self.stop_note(c) {
                releases.push(c);
            }
            j = j + 1;
        }
        assert(released@.take(j as int) =~= released@);
        KeyActions { starts, releases }
    }

    /// Closes `id`'s voice's gate so that it enters its release; the
    /// voice stays until its sound has ended. Returns whether a gate closed
    /// now. Without a voice for `id` nothing changes.
    pub fn stop_note(&mut self, id: char) -> (r: bool)
        requires
            old(self).wf(),
        ensures
            final(self).wf(),
            final(self)@ == after_note_off(old(self)@, id),
            !has_voice(old(self)@, id) ==> final(self)@ == old(self)@ && !r,
            r <==> exists|i: int|
                0 <= i < old(self)@.len() && old(self)@[i].id == id && old(self)@[i].gate_open,
    {
        match self.find(id) {
            None => {
                assert(after_note_off(old(self)@, id) =~= old(self)@);
                false
            },
            Some(i) => {
                let v = self.voices[i];
                let was_open = v.gate_open;
                self.voices.set(i, Voice { gate_open: false, ..v });
                assert(self@ =~= after_note_off(old(self)@, id));
                was_open
            },
        }
    }

    /// Forgets `id`'s voice once its sound has ended.
    pub fn reap(&mut self, id: char)
        requires
            old(self).wf(),
        ensures
            final(self).wf(),
            final(self)@ == without_voice(old(self)@, id),
    {
        match self.find(id) {
            None => {},
            Some(i) => {
                let ghost before = self@;
                self.voices.remove(i);
                proof {
                    lemma_remove_voice(before, i as int, id);
                }
            },
        }
    }

    /// Discards every voice, whatever its stage, and returns the keys that
    /// started them.
    pub fn stop_all(&mut self) -> (r: Vec<char>)
        requires
            old(self).wf(),
        ensures
            final(self)@ == Seq::<Voice>::empty(),
            final(self).wf(),
            r@ == old(self)@.map_values(|v: Voice| v.id),
    {
        let mut ids: Vec<char> = Vec::new();
        let mut i: usize = 0;
        while i < self.voices.len()
            invariant
                i <= self.voices@.len(),
                self.voices@ == old(self)@,
                ids@ == old(self)@.take(i as int).map_values(|v: Voice| v.id),
            decreases self.voices@.len() - i,
        {
            ids.push(self.voices[i].id);
            i = i + 1;
            assert(ids@ =~= old(self)@.take(i as int).map_values(|v: Voice| v.id));
        }
        assert(old(self)@.take(i as int) =~= old(self)@);
        self.voices.clear();
        ids
    }

    /// The volume that every live voice takes after a volume change; the
    /// voices themselves are untouched.
    pub fn sync_volume(&self, settings: &AudioState) -> (r: u32)
        requires
            settings.wf(),
        ensures
            r == settings@.volume,
    {
        settings.get_volume()
    }

    /// Whether every live voice is to be paused after a mute change.
    pub fn sync_muted_state(&self, settings: &AudioState) -> (r: bool)
        ensures
            r == settings@.muted,
    {
        settings.is_muted()
    }
}

proof fn lemma_remove_voice(vs: Seq<Voice>, i: int, id: char)
    requires
        ids_unique(vs),
        0 <= i < vs.len(),
        vs[i].id == id,
    ensures
        vs.remove(i) == without_voice(vs, id),
        ids_unique(vs.remove(i)),
        !has_voice(vs.remove(i), id),
{
    let c = choose|k: int| 0 <= k < vs.len() && vs[k].id == id;
    assert(c == i);
    let w = vs.remove(i);
    assert forall|a: int, b: int| 0 <= a < w.len() && 0 <= b < w.len() && w[a].id == w[b].id implies a == b by {
        let a2 = if a < i { a } else { a + 1 };
        let b2 = if b < i { b } else { b + 1 };
        assert(w[a] == vs[a2]);
        assert(w[b] == vs[b2]);
    }
    if has_voice(w, id) {
        let k = choose|k: int| 0 <= k < w.len() && w[k].id == id;
        let k2 = if k < i { k } else { k + 1 };
        assert(w[k] == vs[k2]);
    }
}

} // verus!
