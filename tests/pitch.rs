use tjam::pitch::{Frequency, Key, Note};

fn hz(key: Key) -> f64 {
    let f = key.frequency();
    f.base_uhz as f64 / 1e6 * 2f64.powi(f.octave_shift as i32)
}

#[test]
fn transpose_by_an_octave_keeps_the_note() {
    let k = Key::new(Note::Eb, 3);
    let up = k.transpose(12);
    assert_eq!(up.note(), Note::Eb);
    assert_eq!(up.octave(), 4);
    assert_eq!(up.absolute_semitone(), k.absolute_semitone() + 12);
    assert_eq!(k.transpose(0), k);
}

#[test]
fn transpose_down_across_octave_zero() {
    let k = Key::new(Note::C, 0);
    let down = k.transpose(-1);
    assert_eq!(down, Key::new(Note::B, -1));
    assert_eq!(down.absolute_semitone(), -1);
    let far = Key::new(Note::D, 2).transpose(-27);
    assert_eq!(far, Key::new(Note::B, -1));
}

#[test]
fn transpose_up_within_octave() {
    assert_eq!(Key::new(Note::A, 4).transpose(3), Key::new(Note::C, 5));
    assert_eq!(Key::new(Note::C, 4).transpose(7), Key::new(Note::G, 4));
}

#[test]
fn a4_is_440_hz_and_octaves_double() {
    let a4 = Key::new(Note::A, 4);
    assert_eq!(a4.absolute_semitone(), 57);
    assert!((hz(a4) - 440.0).abs() < 1e-4);
    assert_eq!(a4.frequency(), Frequency { base_uhz: 440_000_000, octave_shift: 0 });
    for note in [Note::C, Note::Eb, Note::A, Note::B] {
        for octave in [-30, -6, -2, 0, 3, 4, 7, 60] {
            let k = Key::new(note, octave);
            let ratio = hz(k.transpose(12)) / hz(k);
            assert!((ratio - 2.0).abs() <= 1e-6 * 2.0);
        }
    }
    assert!((hz(a4.transpose(12)) - 880.0).abs() < 1e-9);
    assert!((hz(Key::new(Note::A, 3)) - 220.0).abs() < 1e-9);
    assert_eq!(Key::new(Note::C, 4).frequency().base_uhz, 261_625_565);
    assert_eq!(Key::new(Note::C, 2).frequency().octave_shift, -2);
    let low_c = hz(Key::new(Note::C, -30));
    let low_db = hz(Key::new(Note::Db, -30));
    assert!(low_c > 0.0 && low_db > low_c);
    for (i, w) in (0..24).map(|s| hz(Key::new(Note::C, -1).transpose(s))).collect::<Vec<_>>().windows(2).enumerate() {
        assert!(w[0] < w[1], "semitone {}", i);
    }
}

#[test]
fn note_from_semitone_wraps() {
    assert_eq!(Note::from_semitone(0), Some(Note::C));
    assert_eq!(Note::from_semitone(13), Some(Note::Db));
    assert_eq!(Note::from_semitone(11), Some(Note::B));
    assert_eq!(Note::from_semitone(24 + 9), Some(Note::A));
    assert_eq!(Note::Gb.semitone(), 6);
}

#[test]
fn note_names() {
    assert_eq!(Note::C.name(), "C");
    assert_eq!(Note::Bb.name(), "Bb");
    assert_eq!(Note::Gb.name(), "Gb");
}

#[test]
fn key_to_string() {
    assert_eq!(Key::new(Note::C, 4).to_string(), "C4");
    assert_eq!(Key::new(Note::Bb, -1).to_string(), "Bb-1");
    assert_eq!(Key::new(Note::Ab, 12).to_string(), "Ab12");
    assert_eq!(Key::new(Note::E, 0).to_string(), "E0");
}

#[test]
fn keyboard_layout() {
    assert_eq!(Key::from_keycode('a'), Some(Key::new(Note::C, 4)));
    assert_eq!(Key::from_keycode('w'), Some(Key::new(Note::Db, 4)));
    assert_eq!(Key::from_keycode('k'), Some(Key::new(Note::C, 5)));
    assert_eq!(Key::from_keycode(';'), Some(Key::new(Note::E, 5)));
    assert_eq!(Key::from_keycode('\''), Some(Key::new(Note::F, 5)));
    assert_eq!(Key::from_keycode('p'), Some(Key::new(Note::Eb, 5)));
    assert_eq!(Key::from_keycode('x'), None);
    assert_eq!(Key::from_keycode('A'), None);
}
