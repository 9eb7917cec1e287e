use tjam::envelope::{Adsr, Envelope, Stage};
use tjam::pitch::{Key, Note};
use tjam::settings::{AudioState, Waveform};
use tjam::voices::{key_difference_of, Play, VoiceStart};

fn settings() -> AudioState {
    AudioState::new(Adsr::new(100, 100, 500_000, 250))
}

#[test]
fn note_on_twice_starts_one_voice() {
    let st = settings();
    let mut play = Play::new();
    let first = play.note_on('a', Key::new(Note::C, 4), &st);
    assert!(first.is_some());
    let second = play.note_on('a', Key::new(Note::C, 4), &st);
    assert_eq!(second, None);
    assert_eq!(play.voice_count(), 1);
    assert!(play.has_voice('a'));
}

#[test]
fn note_on_copies_current_settings() {
    let mut st = settings();
    st.set_source(Waveform::Square);
    st.set_volume(250_000);
    st.set_muted(true);
    let mut play = Play::new();
    let start = play.note_on('s', Key::new(Note::D, 4), &st).unwrap();
    assert_eq!(
        start,
        VoiceStart {
            id: 's',
            key: Key::new(Note::D, 4),
            waveform: Waveform::Square,
            adsr: Adsr::new(100, 100, 500_000, 250),
            volume: 250_000,
            paused: true,
        }
    );
}

#[test]
fn note_off_without_voice_is_a_no_op() {
    let st = settings();
    let mut play = Play::new();
    assert!(!play.stop_note('z'));
    assert_eq!(play.voice_count(), 0);
    play.note_on('a', Key::new(Note::C, 4), &st);
    assert!(!play.stop_note('q'));
    assert_eq!(play.voice_count(), 1);
    assert_eq!(play.gate_open('a'), Some(true));
}

#[test]
fn note_off_closes_gate_once_and_keeps_voice() {
    let st = settings();
    let mut play = Play::new();
    play.note_on('a', Key::new(Note::C, 4), &st);
    assert!(play.stop_note('a'));
    assert_eq!(play.gate_open('a'), Some(false));
    assert_eq!(play.voice_count(), 1);
    assert!(!play.stop_note('a'));
    play.reap('a');
    assert_eq!(play.voice_count(), 0);
    assert_eq!(play.gate_open('a'), None);
}

#[test]
fn play_note_uses_layout() {
    let st = settings();
    let mut play = Play::new();
    assert_eq!(play.play_note('x', &st), None);
    assert_eq!(play.voice_count(), 0);
    let start = play.play_note('h', &st).unwrap();
    assert_eq!(start.key, Key::new(Note::A, 4));
}

#[test]
fn stop_all_discards_every_voice() {
    let st = settings();
    let mut play = Play::new();
    play.play_note('a', &st);
    play.play_note('s', &st);
    play.play_note('d', &st);
    play.stop_note('s');
    let ids = play.stop_all();
    assert_eq!(ids, vec!['a', 's', 'd']);
    assert_eq!(play.voice_count(), 0);
}

#[test]
fn reap_keeps_other_voices_in_order() {
    let st = settings();
    let mut play = Play::new();
    play.play_note('a', &st);
    play.play_note('s', &st);
    play.play_note('d', &st);
    play.reap('s');
    play.reap('q');
    assert_eq!(play.stop_all(), vec!['a', 'd']);
}

#[test]
fn sync_reads_settings_without_touching_voices() {
    let mut st = settings();
    let mut play = Play::new();
    play.play_note('a', &st);
    st.set_volume(400_000);
    assert_eq!(play.sync_volume(&st), 400_000);
    assert!(!play.sync_muted_state(&st));
    st.toggle_muted();
    assert!(play.sync_muted_state(&st));
    assert_eq!(play.voice_count(), 1);
}

#[test]
fn key_difference_keeps_order() {
    assert_eq!(key_difference_of(&vec!['a', 's', 'd'], &vec!['s']), vec!['a', 'd']);
    assert_eq!(key_difference_of(&vec![], &vec!['s']), Vec::<char>::new());
    assert_eq!(key_difference_of(&vec!['a'], &vec!['a']), Vec::<char>::new());
}

#[test]
fn on_keys_presses_and_releases() {
    let st = settings();
    let mut play = Play::new();
    let acts = play.on_keys(&vec!['a', 's', 'x'], &vec![], &st);
    assert_eq!(acts.starts.len(), 2);
    assert_eq!(acts.starts[0].id, 'a');
    assert_eq!(acts.starts[1].key, Key::new(Note::D, 4));
    assert!(acts.releases.is_empty());
    let acts = play.on_keys(&vec!['s', 'x'], &vec!['a', 's', 'x'], &st);
    assert!(acts.starts.is_empty());
    assert_eq!(acts.releases, vec!['a']);
    assert_eq!(play.gate_open('a'), Some(false));
    assert_eq!(play.gate_open('s'), Some(true));
}

#[test]
fn key_a_press_hold_release_fades_and_ends() {
    let st = settings();
    let mut play = Play::new();
    let acts = play.on_keys(&vec!['a'], &vec![], &st);
    assert_eq!(acts.starts.len(), 1);
    let start = acts.starts[0];
    assert_eq!(start.key, Key::new(Note::C, 4));
    assert_eq!(start.key.to_string(), "C4");
    let rate = 48_000;
    let mut env = Envelope::new(start.adsr, rate);
    let mut gate = true;
    for _ in 0..(4_800 + 4_800) {
        env.next_amplitude(gate).unwrap();
    }
    assert_eq!(env.stage(), Stage::Sustain);
    let held = env.amplitude();
    assert_eq!(held.num * 2, held.den);
    let acts = play.on_keys(&vec![], &vec!['a'], &st);
    assert_eq!(acts.releases, vec!['a']);
    gate = play.gate_open('a').unwrap();
    assert!(!gate);
    let mut tail = vec![held];
    while let Some(a) = env.next_amplitude(gate) {
        tail.push(a);
    }
    assert_eq!(tail.len(), 12_001);
    assert_eq!(tail.last().unwrap().num, 0);
    for w in tail.windows(2) {
        assert!(w[1].num * w[0].den < w[0].num * w[1].den);
    }
    assert!(env.is_done());
    play.reap('a');
    assert_eq!(play.voice_count(), 0);
}
